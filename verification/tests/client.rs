use matrix_nio::request::{EndpointRequest, HttpCall, Method};
use matrix_nio::{AsyncClient, AsyncClientConfig, ClientError, Session, SyncSettings};
use ruma_events::room::message::{
    FileMessageEventContent, MessageEventContent, TextMessageEventContent,
};

fn session() -> Session {
    Session {
        access_token: "secret".to_string(),
        user_id: "@me:example.org".to_string(),
        device_id: "DEVICE".to_string(),
    }
}

fn client(session: Option<Session>) -> AsyncClient<u32> {
    AsyncClient::new("https://example.org", session).unwrap()
}

fn names_itself(client: &AsyncClient<u32>, user_agent: &str) -> bool {
    format!("{:?}", client.http_client()).contains(&format!("\"user-agent\": \"{}\"", user_agent))
}

fn text(body: &str) -> MessageEventContent {
    MessageEventContent::Text(TextMessageEventContent {
        body: body.to_string(),
        format: None,
        formatted_body: None,
        relates_to: None,
    })
}

fn request(method: &str, requires_authentication: bool, path: Option<&str>) -> EndpointRequest {
    EndpointRequest {
        method: method.to_string(),
        requires_authentication,
        path_and_query: path.map(|path| path.to_string()),
        body: vec![1, 2, 3],
    }
}

fn login_reply() -> Vec<u8> {
    let json = "{\"access_token\": \"granted\", \"home_server\": \"example.org\", \
        \"user_id\": \"@me:example.org\", \"device_id\": \"NEW\"}";
    json.as_bytes().to_vec()
}

fn bytes(call: HttpCall) -> String {
    String::from_utf8(call.body.unwrap()).unwrap()
}

#[test]
fn a_new_client_has_nothing_but_its_session() {
    let fresh = client(None);
    assert!(!fresh.logged_in());
    assert_eq!(fresh.homeserver(), "https://example.org/");
    assert_eq!(fresh.sync_token(), None);
    assert_eq!(fresh.callback_count(), 0);
    assert_eq!(fresh.base_client().room_count(), 0);
    assert!(names_itself(&fresh, "nio-rust 0.1.0"));
    assert!(client(Some(session())).logged_in());
}

#[test]
fn a_client_takes_a_config() {
    let config = AsyncClientConfig::new().user_agent("robot").unwrap();
    let config = config.proxy("http://localhost:8080").unwrap();
    let made: AsyncClient<u32> =
        AsyncClient::new_with_config("http://host:8008/path", None, config).unwrap();
    assert_eq!(made.homeserver(), "http://host:8008/path");
    assert!(names_itself(&made, "robot"));
    assert!(format!("{:?}", made.http_client()).contains("http://localhost:8080"));
}

#[test]
fn a_homeserver_that_is_no_url_gives_no_client() {
    let none: Option<Result<AsyncClient<()>, ClientError>> = AsyncClient::try_new("no url", None);
    assert!(none.is_none());
    let config = AsyncClientConfig::new();
    let none: Option<Result<AsyncClient<()>, ClientError>> =
        AsyncClient::try_new_with_config("/path", None, config);
    assert!(none.is_none());
    let made: AsyncClient<()> = AsyncClient::try_new("HTTPS://Example.ORG:443", None).unwrap().unwrap();
    assert_eq!(made.homeserver(), "https://example.org/");
    let config = AsyncClientConfig::new().user_agent("robot").unwrap();
    let made: AsyncClient<u32> =
        AsyncClient::try_new_with_config("http://a", Some(session()), config).unwrap().unwrap();
    assert!(made.logged_in());
    assert!(names_itself(&made, "robot"));
}

#[test]
fn a_client_stands_on_an_http_client() {
    let http = AsyncClientConfig::new().http_options().build().unwrap();
    let made: AsyncClient<()> =
        AsyncClient::with_http_client("http://a/".to_string(), http, Some(session()));
    assert!(made.logged_in());
    assert_eq!(made.homeserver(), "http://a/");
}

#[test]
fn callbacks_are_kept_in_order() {
    let mut made = client(None);
    made.add_event_callback(5);
    made.add_event_callback(7);
    assert_eq!(made.callback_count(), 2);
    assert_eq!(*made.event_callback(0), 5);
    *made.event_callback(1) += 1;
    assert_eq!(*made.event_callback(1), 8);
}

#[test]
fn requests_go_out_by_their_method() {
    let made = client(None);
    let call = made.send(request("GET", false, Some("/a?b=c"))).unwrap();
    assert_eq!(call.method, Method::Get);
    assert_eq!(call.url, "https://example.org/a?b=c");
    assert_eq!(call.body, None);
    assert_eq!(call.bearer, None);
    let call = made.send(request("POST", false, Some("/a"))).unwrap();
    assert_eq!(call.method, Method::Post);
    assert_eq!(call.body, Some(vec![1, 2, 3]));
    let call = made.send(request("PUT", false, Some("/a"))).unwrap();
    assert_eq!(call.method, Method::Put);
    assert_eq!(call.body, Some(vec![1, 2, 3]));
}

#[test]
fn requests_that_cannot_be_sent() {
    let made = client(Some(session()));
    assert!(made.try_send(request("DELETE", false, Some("/a"))).is_none());
    assert!(made.try_send(request("PATCH", false, Some("/a"))).is_none());
    assert!(made.try_send(request("get", false, Some("/a"))).is_none());
    assert!(made.try_send(request("GET", false, None)).is_none());
    assert!(made.try_send(request("GET", false, Some("//[/"))).is_none());
    assert!(made.try_send(request("GET", true, Some("/a"))).is_some());
}

#[test]
fn authentication_is_sent_where_it_is_asked_for() {
    let made = client(Some(session()));
    let call = made.send(request("GET", true, Some("/a"))).unwrap();
    assert_eq!(call.bearer, Some("secret".to_string()));
    let call = made.send(request("GET", false, Some("/a"))).unwrap();
    assert_eq!(call.bearer, None);
}

#[test]
fn without_a_session_authentication_is_required() {
    let mut made = client(None);
    let refused = made.send(request("GET", true, Some("/a")));
    assert!(matches!(refused, Err(ClientError::AuthenticationRequired)));
    assert!(matches!(made.sync(SyncSettings::new()), Err(ClientError::AuthenticationRequired)));
    let refused = made.room_send("!room:example.org", text("hi"));
    assert!(matches!(refused, Err(ClientError::AuthenticationRequired)));
    assert!(made.login("me".to_string(), "pw".to_string(), None).is_ok());
}

#[test]
fn a_login_is_sent_without_a_token() {
    for made in vec![client(None), client(Some(session()))] {
        let call = made.login("me".to_string(), "p\"w".to_string(), None).unwrap();
        assert_eq!(call.method, Method::Post);
        assert_eq!(call.url, "https://example.org/_matrix/client/r0/login");
        assert_eq!(call.bearer, None);
        assert_eq!(
            bytes(call),
            "{\"password\":\"p\\\"w\",\"type\":\"m.login.password\",\"user\":\"me\"}",
        );
        let device = Some("DEV".to_string());
        let call = made.try_login("me".to_string(), "pw".to_string(), device).unwrap().unwrap();
        assert_eq!(
            bytes(call),
            "{\"password\":\"pw\",\"type\":\"m.login.password\",\"user\":\"me\",\"device_id\":\"DEV\"}",
        );
    }
}

#[test]
fn logins_are_escaped_in_json() {
    let made = client(None);
    let user = "\u{8}\t\n\u{c}\r\u{1}\u{1f}\u{7f}/".to_string();
    let call = made.login(user, "\\\u{e4}\u{20ac}".to_string(), None).unwrap();
    assert_eq!(
        bytes(call),
        "{\"password\":\"\\\\\u{e4}\u{20ac}\",\"type\":\"m.login.password\",\
        \"user\":\"\\b\\t\\n\\f\\r\\u0001\\u001f\u{7f}/\"}",
    );
}

#[test]
fn room_ids_are_a_segment_of_the_path() {
    let mut made = client(Some(session()));
    let room_id = "!a b\"#%/<>?\\`{}\u{e4}\t\n|^'[]~:EXAMPLE.org:8448";
    let call = made.room_send(room_id, text("hi")).unwrap();
    assert_eq!(
        call.url,
        "https://example.org/_matrix/client/r0/rooms/\
        !a%20b%22%23%25%2F%3C%3E%3F%5C%60%7B%7D%C3%A4|^'[]~:example.org:8448/send/m.room.message/0",
    );
}

#[test]
fn a_homeserver_that_nothing_can_be_joined_to() {
    let mut made: AsyncClient<()> = AsyncClient::new("mailto:me@example.org", Some(session())).unwrap();
    assert!(made.try_login("me".to_string(), "pw".to_string(), None).is_none());
    assert!(made.try_sync(SyncSettings::new()).is_none());
    assert!(made.try_room_send("!room:example.org", text("hi")).is_none());
    assert_eq!(made.transaction_id(), 1);
}

#[test]
fn a_login_reply_opens_a_session() {
    let mut made = client(None);
    let response = made.receive_login(200, login_reply()).unwrap();
    assert_eq!(response.access_token, "granted");
    assert_eq!(response.home_server, "example.org");
    assert_eq!(response.refresh_token, None);
    assert_eq!(response.user_id, "@me:example.org");
    assert_eq!(response.device_id, "NEW");
    assert!(made.logged_in());
    let held = made.base_client().session().unwrap();
    assert_eq!(held.access_token, "granted");
    assert_eq!(held.user_id, "@me:example.org");
    assert_eq!(held.device_id, "NEW");
    let call = made.sync(SyncSettings::new()).unwrap();
    assert_eq!(call.bearer, Some("granted".to_string()));
    let call = made.room_send("!room:example.org", text("hi")).unwrap();
    assert_eq!(call.bearer, Some("granted".to_string()));
    assert_eq!(made.sync_token(), None);
}

#[test]
fn a_login_reply_that_is_no_success_changes_nothing() {
    let mut made = client(Some(session()));
    for (status, body) in vec![
        (403, login_reply()),
        (199, login_reply()),
        (300, login_reply()),
        (200, b"{}".to_vec()),
        (200, b"no json".to_vec()),
    ] {
        assert!(matches!(made.receive_login(status, body), Err(ClientError::RumaApi(_))));
        assert_eq!(made.base_client().session().unwrap().access_token, "secret");
    }
    assert!(made.receive_login(299, login_reply()).is_ok());
    assert_eq!(made.base_client().session().unwrap().access_token, "granted");
}

#[test]
fn a_message_is_sent_under_a_transaction() {
    let mut made = client(Some(session()));
    let call = made.room_send("!room:example.org", text("hi")).unwrap();
    assert_eq!(call.method, Method::Put);
    assert_eq!(
        call.url,
        "https://example.org/_matrix/client/r0/rooms/!room:example.org/send/m.room.message/0",
    );
    assert_eq!(call.bearer, Some("secret".to_string()));
    assert_eq!(bytes(call), "{\"body\":\"hi\",\"msgtype\":\"m.text\"}");
    let call = made.try_room_send("!r%:example.org", text("ho")).unwrap().unwrap();
    assert_eq!(
        call.url,
        "https://example.org/_matrix/client/r0/rooms/!r%25:example.org/send/m.room.message/1",
    );
    assert_eq!(bytes(call), "{\"body\":\"ho\",\"msgtype\":\"m.text\"}");
}

#[test]
fn a_message_of_another_kind_is_sent_as_that_kind() {
    let mut made = client(Some(session()));
    let file = MessageEventContent::File(FileMessageEventContent {
        body: "f".to_string(),
        filename: None,
        info: None,
        url: Some("mxc://example.org/f".to_string()),
        file: None,
    });
    let sent = bytes(made.try_room_send("!room:example.org", file).unwrap().unwrap());
    assert!(sent.contains("\"msgtype\":\"m.file\""));
    assert!(sent.contains("\"url\":\"mxc://example.org/f\""));
}

#[test]
fn transaction_ids_count_up() {
    let mut made = client(Some(session()));
    assert_eq!(made.transaction_id(), 0);
    assert_eq!(made.transaction_id(), 1);
    for n in 2..120 {
        let url = made.room_send("!room:example.org", text("hi")).unwrap().url;
        assert!(url.ends_with(&format!("/m.room.message/{}", n)));
    }
}

#[test]
fn a_room_id_that_is_none_takes_no_transaction() {
    let mut made = client(Some(session()));
    for room_id in vec!["", "room:example.org", "!room", "#room:example.org"] {
        assert!(made.try_room_send(room_id, text("hi")).is_none());
    }
    assert_eq!(made.transaction_id(), 0);
}

#[test]
fn a_message_without_a_json_form_takes_a_transaction() {
    let mut made = client(None);
    let refused = made.room_send("!room:example.org", MessageEventContent::__Nonexhaustive);
    assert!(matches!(refused, Err(ClientError::RumaApi(_))));
    assert_eq!(made.transaction_id(), 1);
    let refused = made.try_room_send("!room:example.org", MessageEventContent::__Nonexhaustive);
    assert!(matches!(refused, Some(Err(ClientError::RumaApi(_)))));
    assert_eq!(made.transaction_id(), 3);
}

#[test]
fn a_message_reply_names_the_event() {
    let body = b"{\"event_id\": \"$event:example.org\"}".to_vec();
    let event_id = AsyncClient::<()>::receive_room_send(200, body.clone()).unwrap();
    assert_eq!(event_id, "$event:example.org");
    for (status, body) in vec![(500, body.clone()), (404, body), (200, b"{}".to_vec())] {
        let failed = AsyncClient::<()>::receive_room_send(status, body);
        assert!(matches!(failed, Err(ClientError::RumaApi(_))));
    }
}
