//! Settings of the client.
use vstd::prelude::*;

use crate::error::{ClientError, HeaderValueError};
use crate::outside::{
    build_client, builder_setup, builder_with_certs, builder_with_proxy, builder_with_user_agent,
    check_header_value, client_setup, header_text, is_build_error, is_proxy_error, new_builder,
    parse_proxy, proxy_for,
};
use crate::session::text;

verus! {

/// The version of the library.
pub const VERSION: &'static str = "0.1.0";

/// The user agent of a client that was given none.
pub open spec fn default_user_agent() -> Seq<char> {
    "nio-rust "@ + VERSION@
}

/// Configuration for the creation of an `AsyncClient`.
#[derive(Debug)]
pub struct AsyncClientConfig {
    proxy: Option<reqwest::Proxy>,
    user_agent: Option<String>,
    disable_ssl_verification: bool,
}

/// The value of an [`AsyncClientConfig`].
pub struct AsyncClientConfigView {
    /// The proxy through which all requests go.
    pub proxy: Option<reqwest::Proxy>,
    /// The user agent that the client gives itself.
    pub user_agent: Option<Seq<char>>,
    /// Whether certificates go unchecked.
    pub disable_ssl_verification: bool,
}

impl AsyncClientConfigView {
    /// The configuration in which nothing is set.
    pub open spec fn unset() -> AsyncClientConfigView {
        AsyncClientConfigView { proxy: None, user_agent: None, disable_ssl_verification: false }
    }

    /// What the configuration means for the HTTP client.
    pub open spec fn http_options(self) -> HttpOptionsView {
        HttpOptionsView {
            accept_invalid_certs: self.disable_ssl_verification,
            proxy: self.proxy,
            user_agent: match self.user_agent {
                Some(user_agent) => user_agent,
                None => default_user_agent(),
            },
        }
    }
}

impl View for AsyncClientConfig {
    type V = AsyncClientConfigView;

    closed spec fn view(&self) -> AsyncClientConfigView {
        AsyncClientConfigView {
            proxy: self.proxy,
            user_agent: text(self.user_agent),
            disable_ssl_verification: self.disable_ssl_verification,
        }
    }
}

impl Default for AsyncClientConfig {
    fn default() -> (config: AsyncClientConfig)
        ensures
            config@ == AsyncClientConfigView::unset(),
    {
        AsyncClientConfig { proxy: None, user_agent: None, disable_ssl_verification: false }
    }
}

impl AsyncClientConfig {
    /// The user agent can be the value of a header.
    #[verifier::type_invariant]
    spec fn user_agent_is_header_text(self) -> bool {
        self.user_agent matches Some(user_agent) ==> header_text(user_agent@)
    }

    /// Creates a new default `AsyncClientConfig`.
    pub fn new() -> (config: AsyncClientConfig)
        ensures
            config@ == AsyncClientConfigView::unset(),
    {
        AsyncClientConfig::default()
    }

    /// Sets the proxy through which all the HTTP requests should go.
    ///
    /// Note, only HTTP proxies are supported.
    pub fn proxy(self, proxy: &str) -> (r: Result<AsyncClientConfig, ClientError>)
        ensures
            r is Ok <==> proxy_for(proxy@) is Some,
            r matches Ok(config) ==> config@ == (AsyncClientConfigView {
                proxy: proxy_for(proxy@),
                ..self@
            }),
            r matches Err(e) ==> (e matches ClientError::Reqwest(cause) && is_proxy_error(
                proxy@,
                cause,
            )),
    {
        proof {
            use_type_invariant(&self);
        }
        match parse_proxy(proxy) {
            Ok(proxy) => Ok(
                AsyncClientConfig {
                    proxy: Some(proxy),
                    user_agent: self.user_agent,
                    disable_ssl_verification: self.disable_ssl_verification,
                },
            ),
            Err(e) => Err(ClientError::Reqwest(e)),
        }
    }

    /// Disables SSL verification for the HTTP requests.
    pub fn disable_ssl_verification(self) -> (config: AsyncClientConfig)
        ensures
            config@ == (AsyncClientConfigView { disable_ssl_verification: true, ..self@ }),
    {
        proof {
            use_type_invariant(&self);
        }
        AsyncClientConfig {
            proxy: self.proxy,
            user_agent: self.user_agent,
            disable_ssl_verification: true,
        }
    }

    /// Sets a custom HTTP user agent for the client.
    pub fn user_agent(self, user_agent: &str) -> (r: Result<AsyncClientConfig, HeaderValueError>)
        ensures
            r is Ok <==> header_text(user_agent@),
            r matches Ok(config) ==> config@ == (AsyncClientConfigView {
                user_agent: Some(user_agent@),
                ..self@
            }),
    {
        proof {
            use_type_invariant(&self);
        }
        match check_header_value(user_agent) {
            Ok(_) => Ok(
                AsyncClientConfig {
                    proxy: self.proxy,
                    user_agent: Some(user_agent.to_owned()),
                    disable_ssl_verification: self.disable_ssl_verification,
                },
            ),
            Err(e) => Err(HeaderValueError(e)),
        }
    }

    /// What the configuration means for the HTTP client.
    pub fn http_options(self) -> (options: HttpOptions)
        ensures
            options@ == self@.http_options(),
    {
        proof {
            use_type_invariant(&self);
        }
        let user_agent = match self.user_agent {
            Some(user_agent) => user_agent,
            None => {
                proof {
                    reveal_strlit("nio-rust ");
                    reveal_strlit("0.1.0");
                    assert(header_text(default_user_agent()));
                }
                String::from_str("nio-rust ").concat(VERSION)
            },
        };
        HttpOptions {
            accept_invalid_certs: self.disable_ssl_verification,
            proxy: self.proxy,
            user_agent,
        }
    }
}

/// How the HTTP client is set up.
#[derive(Debug)]
pub struct HttpOptions {
    accept_invalid_certs: bool,
    proxy: Option<reqwest::Proxy>,
    user_agent: String,
}

/// The value of [`HttpOptions`].
pub struct HttpOptionsView {
    /// Whether certificates go unchecked.
    pub accept_invalid_certs: bool,
    /// The proxy through which all requests go.
    pub proxy: Option<reqwest::Proxy>,
    /// The user agent that every request names.
    pub user_agent: Seq<char>,
}

impl HttpOptionsView {
    /// How a client with these options is set up.
    pub open spec fn setup(self) -> HttpSetup {
        HttpSetup {
            accept_invalid_certs: self.accept_invalid_certs,
            proxies: match self.proxy {
                Some(proxy) => seq![proxy],
                None => Seq::empty(),
            },
            user_agent: Some(self.user_agent),
        }
    }
}

/// What an HTTP client is set up with.
pub struct HttpSetup {
    /// Whether certificates go unchecked.
    pub accept_invalid_certs: bool,
    /// The proxies that were given.
    pub proxies: Seq<reqwest::Proxy>,
    /// The user agent that every request names.
    pub user_agent: Option<Seq<char>>,
}

impl View for HttpOptions {
    type V = HttpOptionsView;

    closed spec fn view(&self) -> HttpOptionsView {
        HttpOptionsView {
            accept_invalid_certs: self.accept_invalid_certs,
            proxy: self.proxy,
            user_agent: self.user_agent@,
        }
    }
}

impl HttpOptions {
    /// The user agent can be the value of a header.
    #[verifier::type_invariant]
    spec fn user_agent_is_header_text(self) -> bool {
        header_text(self.user_agent@)
    }

    /// Whether certificates go unchecked.
    pub fn accept_invalid_certs(&self) -> (r: bool)
        ensures
            r == self@.accept_invalid_certs,
    {
        self.accept_invalid_certs
    }

    /// The proxy through which all requests go.
    pub fn proxy(&self) -> (r: Option<&reqwest::Proxy>)
        ensures
            r is Some <==> self@.proxy is Some,
            r matches Some(proxy) ==> self@.proxy == Some(*proxy),
    {
        self.proxy.as_ref()
    }

    /// The user agent that every request names.
    pub fn user_agent(&self) -> (r: &String)
        ensures
            r@ == self@.user_agent,
    {
        &self.user_agent
    }

    /// A builder that has been told these options, and nothing else.
    fn builder(self) -> (builder: reqwest::ClientBuilder)
        ensures
            builder_setup(builder) == self@.setup(),
    {
        proof {
            use_type_invariant(&self);
        }
        let builder = new_builder();
        let builder = if self.accept_invalid_certs {
            builder_with_certs(builder, true)
        } else {
            builder
        };
        let builder = match self.proxy {
            Some(proxy) => builder_with_proxy(builder, proxy),
            None => builder,
        };
        let builder = builder_with_user_agent(builder, self.user_agent.as_str());
        assert(builder_setup(builder).proxies =~= self@.setup().proxies);
        builder
    }

    /// Sets up an HTTP client. Whether that succeeds rests with the machine.
    pub fn build(self) -> (r: Result<reqwest::Client, ClientError>)
        ensures
            r matches Ok(client) ==> client_setup(client) == self@.setup(),
            r matches Err(e) ==> (e matches ClientError::Reqwest(cause) && is_build_error(
                self@.setup(),
                cause,
            )),
    {
        match build_client(self.builder()) {
            Ok(client) => Ok(client),
            Err(e) => Err(ClientError::Reqwest(e)),
        }
    }
}

} // verus!
