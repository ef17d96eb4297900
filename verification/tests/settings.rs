use matrix_nio::config::HttpOptions;
use matrix_nio::error::{HeaderValueError, IntRangeError};
use matrix_nio::{AsyncClient, AsyncClientConfig, ClientError, Session, SyncSettings};

fn client() -> AsyncClient<()> {
    let session = Session {
        access_token: "token".to_string(),
        user_id: "@me:example.org".to_string(),
        device_id: "DEVICE".to_string(),
    };
    AsyncClient::new("https://example.org", Some(session)).unwrap()
}

fn proxy(options: &HttpOptions) -> Option<String> {
    options.proxy().map(|proxy| format!("{:?}", proxy))
}

fn sync_url(settings: SyncSettings) -> String {
    client().sync(settings).unwrap().url
}

#[test]
fn config_with_a_proxy_and_without_ssl_verification() {
    let options = AsyncClientConfig::new()
        .proxy("http://localhost:8080")
        .unwrap()
        .disable_ssl_verification()
        .http_options();
    assert!(proxy(&options).unwrap().contains("http://localhost:8080"));
    assert!(options.accept_invalid_certs());
    assert_eq!(options.user_agent(), "nio-rust 0.1.0");
}

#[test]
fn config_with_a_proxy() {
    let options = AsyncClientConfig::new().proxy("http://localhost:8080").unwrap().http_options();
    assert!(proxy(&options).unwrap().contains("http://localhost:8080"));
    assert!(!options.accept_invalid_certs());
}

#[test]
fn config_starts_with_nothing_set() {
    for config in vec![AsyncClientConfig::new(), AsyncClientConfig::default()] {
        let options = config.http_options();
        assert_eq!(proxy(&options), None);
        assert!(!options.accept_invalid_certs());
        assert_eq!(options.user_agent(), &format!("nio-rust {}", matrix_nio::VERSION));
    }
}

#[test]
fn config_refuses_what_is_no_url_as_a_proxy() {
    let refused = AsyncClientConfig::new().proxy("not a url");
    assert!(matches!(refused, Err(ClientError::Reqwest(_))));
}

#[test]
fn config_takes_a_user_agent() {
    let config = AsyncClientConfig::new().disable_ssl_verification();
    let config = config.user_agent("robot\t1 \u{e4}").unwrap();
    let options = config.http_options();
    assert_eq!(options.user_agent(), "robot\t1 \u{e4}");
    assert!(options.accept_invalid_certs());
}

#[test]
fn config_refuses_a_user_agent_that_is_no_header_value() {
    for text in vec!["line\nbreak", "\u{7f}", "nul\0"] {
        let refused = AsyncClientConfig::new().user_agent(text);
        let HeaderValueError(cause) = refused.err().unwrap();
        assert_eq!(cause.to_string(), "failed to parse header value");
    }
}

#[test]
fn config_setters_keep_the_other_settings() {
    let options = AsyncClientConfig::new()
        .user_agent("first")
        .unwrap()
        .proxy("http://one:1")
        .unwrap()
        .disable_ssl_verification()
        .user_agent("second")
        .unwrap()
        .proxy("http://two:2")
        .unwrap()
        .http_options();
    assert_eq!(options.user_agent(), "second");
    assert!(proxy(&options).unwrap().contains("http://two:2"));
    assert!(options.accept_invalid_certs());
}

#[test]
fn http_client_is_set_up_with_its_options() {
    let config = AsyncClientConfig::new().user_agent("robot").unwrap();
    let config = config.proxy("http://proxy.example.org:8080").unwrap();
    let shown = format!("{:?}", config.http_options().build().unwrap());
    assert!(shown.contains("\"user-agent\": \"robot\""));
    assert!(shown.contains("proxy.example.org:8080"));
    let shown = format!("{:?}", AsyncClientConfig::new().http_options().build().unwrap());
    assert!(shown.contains("\"user-agent\": \"nio-rust 0.1.0\""));
    assert!(!shown.contains("proxy.example.org:8080"));
    assert!(AsyncClientConfig::new().disable_ssl_verification().http_options().build().is_ok());
}

#[test]
fn settings_start_with_nothing_set() {
    let url = "https://example.org/_matrix/client/r0/sync?";
    assert_eq!(sync_url(SyncSettings::new()), url);
    assert_eq!(sync_url(SyncSettings::default()), url);
}

#[test]
fn settings_go_into_the_query() {
    let settings = SyncSettings::new().token("s72_1".to_string()).full_state(true);
    let settings = settings.timeout(30000).unwrap();
    assert_eq!(
        sync_url(settings),
        "https://example.org/_matrix/client/r0/sync?since=s72_1&full_state=true&timeout=30000",
    );
    assert_eq!(
        sync_url(SyncSettings::new().full_state(false).token("t".to_string())),
        "https://example.org/_matrix/client/r0/sync?since=t&full_state=false",
    );
    assert_eq!(
        sync_url(SyncSettings::new().timeout(0).unwrap()),
        "https://example.org/_matrix/client/r0/sync?timeout=0",
    );
}

#[test]
fn the_full_state_does_nothing_without_a_token() {
    for full_state in vec![true, false] {
        let settings = SyncSettings::new().full_state(full_state);
        assert_eq!(sync_url(settings), sync_url(SyncSettings::new()));
        let settings = SyncSettings::new().timeout(7).unwrap().full_state(full_state);
        assert_eq!(
            sync_url(settings),
            "https://example.org/_matrix/client/r0/sync?timeout=7",
        );
    }
}

#[test]
fn settings_keep_the_last_value() {
    let settings = SyncSettings::new().token("a".to_string()).timeout(1).unwrap().full_state(true);
    let settings = settings.full_state(false).timeout(2).unwrap().token("b".to_string());
    let copy = settings.clone();
    let url = "https://example.org/_matrix/client/r0/sync?since=b&full_state=false&timeout=2";
    assert_eq!(sync_url(settings), url);
    assert_eq!(sync_url(copy), url);
}

#[test]
fn tokens_are_form_encoded() {
    let settings = SyncSettings::new().token("aZ09*-._ +&=%/\u{e4}\u{20ac}\n".to_string());
    assert_eq!(
        sync_url(settings),
        "https://example.org/_matrix/client/r0/sync?since=aZ09*-._+%2B%26%3D%25%2F%C3%A4%E2%82%AC%0A",
    );
}

#[test]
fn timeouts_end_at_two_to_the_53() {
    let max: i128 = 9007199254740991;
    assert!(SyncSettings::new().timeout(max).is_ok());
    for refused in vec![max + 1, -1, i128::MAX, i128::MIN] {
        let IntRangeError(cause) = SyncSettings::new().timeout(refused).err().unwrap();
        assert_eq!(cause.to_string(), "out of range integral type conversion attempted");
    }
    assert_eq!(
        sync_url(SyncSettings::new().timeout(max).unwrap()),
        "https://example.org/_matrix/client/r0/sync?timeout=9007199254740991",
    );
}

#[test]
fn a_uri_can_be_too_long() {
    // The host, the path and the name of the parameter take 33, 24 and 6.
    let longest = 65534 - 33 - 24 - 6;
    let fits = SyncSettings::new().token("a".repeat(longest));
    assert!(fits.uri_fits());
    assert!(client().try_sync(fits).unwrap().is_ok());
    let too_long = SyncSettings::new().token("a".repeat(longest + 1));
    assert!(!too_long.uri_fits());
    assert!(client().try_sync(too_long).is_none());
    let escaped = SyncSettings::new().token("/".repeat(longest / 3));
    assert!(escaped.uri_fits());
    let escaped = SyncSettings::new().token("/".repeat(longest / 3 + 1));
    assert!(!escaped.uri_fits());
    let with_more = SyncSettings::new().token("a".repeat(longest - 26)).full_state(true);
    assert!(with_more.timeout(9).unwrap().uri_fits());
    let with_more = SyncSettings::new().token("a".repeat(longest - 25)).full_state(true);
    assert!(!with_more.timeout(9).unwrap().uri_fits());
}
