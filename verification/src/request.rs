//! From an endpoint's request to what goes over the wire.
use vstd::prelude::*;

use crate::error::ClientError;
use crate::session::{text, Session, SessionView};

verus! {

/// What an endpoint makes of its request, before the client adds the
/// homeserver and the access token.
#[derive(Debug)]
pub struct EndpointRequest {
    /// The name of the endpoint's HTTP method.
    pub method: String,
    /// Whether the endpoint asks for an access token.
    pub requires_authentication: bool,
    /// The path and the query of the request.
    pub path_and_query: Option<String>,
    /// The bytes of the request.
    pub body: Vec<u8>,
}

/// The value of an [`EndpointRequest`].
pub struct EndpointRequestView {
    pub method: Seq<char>,
    pub requires_authentication: bool,
    pub path_and_query: Option<Seq<char>>,
    pub body: Seq<u8>,
}

impl View for EndpointRequest {
    type V = EndpointRequestView;

    open spec fn view(&self) -> EndpointRequestView {
        EndpointRequestView {
            method: self.method@,
            requires_authentication: self.requires_authentication,
            path_and_query: text(self.path_and_query),
            body: self.body@,
        }
    }
}

/// The HTTP methods that the client makes requests with.
#[derive(Clone, Copy, Debug, PartialEq, Eq, Structural)]
pub enum Method {
    Get,
    Post,
    Put,
}

/// The method of a name, if the client makes requests with it.
pub open spec fn method_named(name: Seq<char>) -> Option<Method> {
    if name == "GET"@ {
        Some(Method::Get)
    } else if name == "POST"@ {
        Some(Method::Post)
    } else if name == "PUT"@ {
        Some(Method::Put)
    } else {
        None
    }
}

/// The names of the three methods stand for them.
pub proof fn method_names()
    ensures
        method_named("GET"@) == Some(Method::Get),
        method_named("POST"@) == Some(Method::Post),
        method_named("PUT"@) == Some(Method::Put),
{
    reveal_strlit("GET");
    reveal_strlit("POST");
    reveal_strlit("PUT");
    assert("PUT"@[0] != "GET"@[0]);
    assert("POST"@.len() != "GET"@.len());
    assert("POST"@.len() != "PUT"@.len());
}

/// The method of a name, if the client makes requests with it.
pub fn method_of(name: &String) -> (r: Option<Method>)
    ensures
        r == method_named(name@),
{
    if *name == "GET".to_owned() {
        Some(Method::Get)
    } else if *name == "POST".to_owned() {
        Some(Method::Post)
    } else if *name == "PUT".to_owned() {
        Some(Method::Put)
    } else {
        None
    }
}

/// A request as it goes over the wire.
#[derive(Debug)]
pub struct HttpCall {
    /// The HTTP method.
    pub method: Method,
    /// The URL to ask.
    pub url: String,
    /// The bytes to send, if the method sends any.
    pub body: Option<Vec<u8>>,
    /// The access token to send as bearer authentication.
    pub bearer: Option<String>,
}

/// The value of an [`HttpCall`].
pub struct HttpCallView {
    pub method: Method,
    pub url: Seq<char>,
    pub body: Option<Seq<u8>>,
    pub bearer: Option<Seq<char>>,
}

impl View for HttpCall {
    type V = HttpCallView;

    open spec fn view(&self) -> HttpCallView {
        HttpCallView {
            method: self.method,
            url: self.url@,
            body: match self.body {
                Some(body) => Some(body@),
                None => None,
            },
            bearer: text(self.bearer),
        }
    }
}

/// What goes over the wire for an endpoint's request. Nothing does where the
/// endpoint asks for an access token and there is none.
pub open spec fn call_for(
    request: EndpointRequestView,
    method: Method,
    url: Seq<char>,
    session: Option<SessionView>,
) -> Option<HttpCallView> {
    if request.requires_authentication && session is None {
        None
    } else {
        Some(
            HttpCallView {
                method,
                url,
                body: if method == Method::Get {
                    None
                } else {
                    Some(request.body)
                },
                bearer: if request.requires_authentication {
                    Some(session->0.access_token)
                } else {
                    None
                },
            },
        )
    }
}

/// Whether the outcome of preparing a call is that it goes out as `call` says,
/// or, where there is none, that it lacks authentication.
pub open spec fn prepared(r: Result<HttpCall, ClientError>, call: Option<HttpCallView>) -> bool {
    match call {
        Some(call) => r matches Ok(c) && c@ == call,
        None => r matches Err(e) && e is AuthenticationRequired,
    }
}

/// Prepares a call to a URL.
pub fn prepare_call(
    request: EndpointRequest,
    method: Method,
    url: String,
    session: Option<&Session>,
) -> (r: Result<HttpCall, ClientError>)
    ensures
        prepared(
            r,
            call_for(
                request@,
                method,
                url@,
                match session {
                    Some(session) => Some(session@),
                    None => None,
                },
            ),
        ),
{
    let body = match method {
        Method::Get => None,
        Method::Post | Method::Put => Some(request.body),
    };
    let bearer = if request.requires_authentication {
        match session {
            Some(session) => Some(session.access_token.clone()),
            None => return Err(ClientError::AuthenticationRequired),
        }
    } else {
        None
    };
    Ok(HttpCall { method, url, body, bearer })
}

} // verus!
