//! Authenticated request construction and response classification.
//!
//! A call is prepared here as a plain value: the absolute URL, the
//! method, the headers (including the computed signature) and the
//! body. The transport that actually sends it adds only its own
//! user-agent header. Responses come back as a status code and a
//! body; their classification into success and failure is also
//! decided here.

use vstd::prelude::*;
use crate::num::dec_int;
use crate::num::i64_to_string;
use crate::signer::sign;
use crate::signer::spec_sign;

verus! {

/// The resolved credentials of one configuration, as loaded from
/// file or environment. The consumer key is absent until the
/// operator completes the login flow.
pub struct Ovh {
    pub endpoint: String,
    pub application_key: String,
    pub application_secret: String,
    pub consumer_key: Option<String>,
}

/// The whole configuration the tool runs under.
pub struct Configuration {
    pub ovh: Ovh,
}

/// An error of the client.
pub enum Error {
    /// The configuration cannot be used, e.g. the consumer key is
    /// missing.
    Configuration(String),
    /// The request could not be built.
    RequestBuild(String),
    /// The connection failed before any response arrived.
    Transport(String),
    /// The server answered with a non-success status.
    RequestFailed { url: String, status: u16, body: Option<String> },
    /// The response body does not match the expected shape.
    Deserialization(String),
}

/// The mathematical value of an error.
pub ghost enum ErrorView {
    Configuration(Seq<char>),
    RequestBuild(Seq<char>),
    Transport(Seq<char>),
    RequestFailed { url: Seq<char>, status: u16, body: Option<Seq<char>> },
    Deserialization(Seq<char>),
}

impl View for Error {
    type V = ErrorView;

    open spec fn view(&self) -> ErrorView {
        match self {
            Error::Configuration(m) => ErrorView::Configuration(m@),
            Error::RequestBuild(m) => ErrorView::RequestBuild(m@),
            Error::Transport(m) => ErrorView::Transport(m@),
            Error::RequestFailed { url, status, body } => ErrorView::RequestFailed {
                url: url@,
                status: *status,
                body: match body {
                    Some(b) => Some(b@),
                    None => None,
                },
            },
            Error::Deserialization(m) => ErrorView::Deserialization(m@),
        }
    }
}

/// The text of a request failure: the URL, the status, and the body
/// text when one was kept.
pub open spec fn spec_failure_message(
    url: Seq<char>,
    status: u16,
    body: Option<Seq<char>>,
) -> Seq<char> {
    "could not execute the request '"@ + url + "', got '"@ + dec_int(status as int) + "'"@
        + match body {
        Some(b) => ", "@ + b,
        None => Seq::<char>::empty(),
    }
}

impl Error {
    /// The message shown to the operator.
    pub fn message(&self) -> (m: String)
        ensures
            m@ == match self@ {
                ErrorView::Configuration(t) => t,
                ErrorView::RequestBuild(t) => t,
                ErrorView::Transport(t) => t,
                ErrorView::RequestFailed { url, status, body } => spec_failure_message(
                    url, status, body),
                ErrorView::Deserialization(t) => t,
            },
    {
        match self {
            Error::Configuration(t) => t.clone(),
            Error::RequestBuild(t) => t.clone(),
            Error::Transport(t) => t.clone(),
            Error::Deserialization(t) => t.clone(),
            Error::RequestFailed { url, status, body } => {
                let mut m = String::from_str("could not execute the request '");
                m.append(url.as_str());
                m.append("', got '");
                let s = crate::num::i64_to_string(*status as i64);
                m.append(s.as_str());
                m.append("'");
                match body {
                    Some(b) => {
                        m.append(", ");
                        m.append(b.as_str());
                    },
                    None => {},
                }
                proof {
                    assert(m@ =~= spec_failure_message(url@, *status, match body {
                        Some(b) => Some(b@),
                        None => None,
                    }));
                }
                m
            },
        }
    }
}

/// The credentials every authenticated call needs.
pub struct ClientConfiguration {
    pub endpoint: String,
    pub application_key: String,
    pub application_secret: String,
    pub consumer_key: String,
}

/// The mathematical value of a client configuration.
pub ghost struct ClientConfigurationView {
    pub endpoint: Seq<char>,
    pub application_key: Seq<char>,
    pub application_secret: Seq<char>,
    pub consumer_key: Seq<char>,
}

impl View for ClientConfiguration {
    type V = ClientConfigurationView;

    open spec fn view(&self) -> ClientConfigurationView {
        ClientConfigurationView {
            endpoint: self.endpoint@,
            application_key: self.application_key@,
            application_secret: self.application_secret@,
            consumer_key: self.consumer_key@,
        }
    }
}

impl ClientConfiguration {
    /// Take the credentials out of a configuration. Fails exactly
    /// when the consumer key is absent: the operator has not logged
    /// in yet.
    pub fn from_ovh(config: Ovh) -> (r: Result<ClientConfiguration, Error>)
        ensures
            match config.consumer_key {
                Some(ck) => r matches Ok(c) && c@ == (ClientConfigurationView {
                    endpoint: config.endpoint@,
                    application_key: config.application_key@,
                    application_secret: config.application_secret@,
                    consumer_key: ck@,
                }),
                None => r matches Err(e) && e@ == ErrorView::Configuration(
                    "could not retrieve consumer key"@),
            },
    {
        match config.consumer_key {
            Some(ck) => Ok(ClientConfiguration {
                endpoint: config.endpoint,
                application_key: config.application_key,
                application_secret: config.application_secret,
                consumer_key: ck,
            }),
            None => Err(Error::Configuration(String::from_str(
                "could not retrieve consumer key",
            ))),
        }
    }
}

/// A prepared HTTP request.
pub struct Request {
    pub method: String,
    pub url: String,
    pub headers: Vec<(String, String)>,
    pub body: String,
}

/// The mathematical value of a prepared request.
pub ghost struct RequestView {
    pub method: Seq<char>,
    pub url: Seq<char>,
    pub headers: Seq<(Seq<char>, Seq<char>)>,
    pub body: Seq<char>,
}

impl View for Request {
    type V = RequestView;

    open spec fn view(&self) -> RequestView {
        RequestView {
            method: self.method@,
            url: self.url@,
            headers: self.headers@.map(|i: int, h: (String, String)| (h.0@, h.1@)),
            body: self.body@,
        }
    }
}

/// The absolute URL of a call.
pub open spec fn spec_url(endpoint: Seq<char>, path: Seq<char>) -> Seq<char> {
    endpoint + seq!['/'] + path
}

/// The four headers of an authenticated call, in order: application
/// key, timestamp, consumer key, signature.
pub open spec fn auth_headers(
    cfg: ClientConfigurationView,
    method: Seq<char>,
    url: Seq<char>,
    body: Seq<char>,
    timestamp: int,
) -> Seq<(Seq<char>, Seq<char>)> {
    seq![
        ("X-Ovh-Application"@, cfg.application_key),
        ("X-Ovh-Timestamp"@, dec_int(timestamp)),
        ("X-Ovh-Consumer"@, cfg.consumer_key),
        ("X-Ovh-Signature"@, spec_sign(
            cfg.application_secret, cfg.consumer_key, method, url, body, timestamp)),
    ]
}

/// A serialized body that is the JSON empty string stands for no
/// body at all: it is sent empty and without a content type.
pub open spec fn normalized_body(body: Seq<char>) -> Seq<char> {
    if body == seq!['"', '"'] {
        Seq::empty()
    } else {
        body
    }
}

/// Build the URL of a call.
fn build_url(endpoint: &str, path: &str) -> (r: String)
    ensures
        r@ == spec_url(endpoint@, path@),
{
    let mut url = endpoint.to_owned();
    proof {
        reveal_strlit("/");
    }
    url.append("/");
    url.append(path);
    proof {
        assert(url@ =~= spec_url(endpoint@, path@));
    }
    url
}

/// Attach the four authentication headers for a call.
fn push_auth_headers(
    headers: &mut Vec<(String, String)>,
    cfg: &ClientConfiguration,
    method: &str,
    url: &str,
    body: &str,
    timestamp: i64,
)
    ensures
        final(headers)@.map(|i: int, h: (String, String)| (h.0@, h.1@))
            == old(headers)@.map(|i: int, h: (String, String)| (h.0@, h.1@))
                + auth_headers(cfg@, method@, url@, body@, timestamp as int),
{
    let ghost old_hs = headers@.map(|i: int, h: (String, String)| (h.0@, h.1@));
    headers.push((String::from_str("X-Ovh-Application"), cfg.application_key.clone()));
    headers.push((String::from_str("X-Ovh-Timestamp"), i64_to_string(timestamp)));
    headers.push((String::from_str("X-Ovh-Consumer"), cfg.consumer_key.clone()));
    let signature = sign(
        cfg.application_secret.as_str(),
        cfg.consumer_key.as_str(),
        method,
        url,
        body,
        timestamp,
    );
    headers.push((String::from_str("X-Ovh-Signature"), signature));
    proof {
        assert(headers@.map(|i: int, h: (String, String)| (h.0@, h.1@))
            =~= old_hs + auth_headers(cfg@, method@, url@, body@, timestamp as int));
    }
}

/// Build a signed GET request: empty body, no content type.
pub fn get_request(cfg: &ClientConfiguration, path: &str, timestamp: i64) -> (r: Request)
    ensures
        r@.method == "GET"@,
        r@.url == spec_url(cfg@.endpoint, path@),
        r@.body == Seq::<char>::empty(),
        r@.headers == auth_headers(
            cfg@, "GET"@, spec_url(cfg@.endpoint, path@), Seq::<char>::empty(), timestamp as int),
{
    let url = build_url(cfg.endpoint.as_str(), path);
    let mut headers: Vec<(String, String)> = Vec::new();
    proof {
        assert(headers@.map(|i: int, h: (String, String)| (h.0@, h.1@))
            =~= Seq::<(Seq<char>, Seq<char>)>::empty());
    }
    push_auth_headers(&mut headers, cfg, "GET", url.as_str(), "", timestamp);
    proof {
        assert(Seq::<(Seq<char>, Seq<char>)>::empty() + auth_headers(
            cfg@, "GET"@, spec_url(cfg@.endpoint, path@), ""@, timestamp as int)
            =~= auth_headers(
                cfg@, "GET"@, spec_url(cfg@.endpoint, path@), ""@, timestamp as int));
        reveal_strlit("");
        assert(""@ =~= Seq::<char>::empty());
    }
    Request {
        method: String::from_str("GET"),
        url,
        headers,
        body: String::new(),
    }
}

/// Build a signed DELETE request: empty body, no content type.
pub fn delete_request(cfg: &ClientConfiguration, path: &str, timestamp: i64) -> (r: Request)
    ensures
        r@.method == "DELETE"@,
        r@.url == spec_url(cfg@.endpoint, path@),
        r@.body == Seq::<char>::empty(),
        r@.headers == auth_headers(
            cfg@, "DELETE"@, spec_url(cfg@.endpoint, path@), Seq::<char>::empty(),
            timestamp as int),
{
    let url = build_url(cfg.endpoint.as_str(), path);
    let mut headers: Vec<(String, String)> = Vec::new();
    proof {
        assert(headers@.map(|i: int, h: (String, String)| (h.0@, h.1@))
            =~= Seq::<(Seq<char>, Seq<char>)>::empty());
    }
    push_auth_headers(&mut headers, cfg, "DELETE", url.as_str(), "", timestamp);
    proof {
        assert(Seq::<(Seq<char>, Seq<char>)>::empty() + auth_headers(
            cfg@, "DELETE"@, spec_url(cfg@.endpoint, path@), ""@, timestamp as int)
            =~= auth_headers(
                cfg@, "DELETE"@, spec_url(cfg@.endpoint, path@), ""@, timestamp as int));
        reveal_strlit("");
        assert(""@ =~= Seq::<char>::empty());
    }
    Request {
        method: String::from_str("DELETE"),
        url,
        headers,
        body: String::new(),
    }
}

/// Build a signed request that carries a serialized body: POST or
/// PUT. A body equal to the JSON empty string is normalized away;
/// when a body remains, a JSON content type is the first header. The
/// signature always covers the normalized body.
fn body_request(
    cfg: &ClientConfiguration,
    method: &str,
    path: &str,
    body: &str,
    timestamp: i64,
) -> (r: Request)
    ensures
        r@.method == method@,
        r@.url == spec_url(cfg@.endpoint, path@),
        r@.body == normalized_body(body@),
        r@.headers == (if body@ == seq!['"', '"'] {
            Seq::<(Seq<char>, Seq<char>)>::empty()
        } else {
            seq![("Content-Type"@, "application/json"@)]
        }) + auth_headers(
            cfg@, method@, spec_url(cfg@.endpoint, path@), normalized_body(body@),
            timestamp as int),
{
    let url = build_url(cfg.endpoint.as_str(), path);
    let mut headers: Vec<(String, String)> = Vec::new();
    let is_empty = crate::strings::str_eq(body, "\"\"");
    proof {
        reveal_strlit("\"\"");
        assert("\"\""@ =~= seq!['"', '"']);
    }
    let normalized: &str = if is_empty { "" } else { body };
    proof {
        reveal_strlit("");
        assert(""@ =~= Seq::<char>::empty());
        assert(normalized@ == normalized_body(body@));
    }
    if !is_empty {
        headers.push((String::from_str("Content-Type"), String::from_str("application/json")));
    }
    proof {
        if body@ == seq!['"', '"'] {
            assert(headers@.map(|i: int, h: (String, String)| (h.0@, h.1@))
                =~= Seq::<(Seq<char>, Seq<char>)>::empty());
        } else {
            assert(headers@.map(|i: int, h: (String, String)| (h.0@, h.1@))
                =~= seq![("Content-Type"@, "application/json"@)]);
        }
    }
    push_auth_headers(&mut headers, cfg, method, url.as_str(), normalized, timestamp);
    Request {
        method: method.to_owned(),
        url,
        headers,
        body: normalized.to_owned(),
    }
}

/// Build a signed POST request.
pub fn post_request(cfg: &ClientConfiguration, path: &str, body: &str, timestamp: i64) -> (r:
    Request)
    ensures
        r@.method == "POST"@,
        r@.url == spec_url(cfg@.endpoint, path@),
        r@.body == normalized_body(body@),
        r@.headers == (if body@ == seq!['"', '"'] {
            Seq::<(Seq<char>, Seq<char>)>::empty()
        } else {
            seq![("Content-Type"@, "application/json"@)]
        }) + auth_headers(
            cfg@, "POST"@, spec_url(cfg@.endpoint, path@), normalized_body(body@),
            timestamp as int),
{
    body_request(cfg, "POST", path, body, timestamp)
}

/// Build a signed PUT request.
pub fn put_request(cfg: &ClientConfiguration, path: &str, body: &str, timestamp: i64) -> (r:
    Request)
    ensures
        r@.method == "PUT"@,
        r@.url == spec_url(cfg@.endpoint, path@),
        r@.body == normalized_body(body@),
        r@.headers == (if body@ == seq!['"', '"'] {
            Seq::<(Seq<char>, Seq<char>)>::empty()
        } else {
            seq![("Content-Type"@, "application/json"@)]
        }) + auth_headers(
            cfg@, "PUT"@, spec_url(cfg@.endpoint, path@), normalized_body(body@),
            timestamp as int),
{
    body_request(cfg, "PUT", path, body, timestamp)
}

/// Build an unauthenticated GET request for the login bootstrap:
/// only the application header. The bootstrap runs before a consumer
/// key exists, so only the endpoint and the application key are
/// needed.
pub fn get_unauthenticated_request(endpoint: &str, application_key: &str, path: &str) -> (r:
    Request)
    ensures
        r@.method == "GET"@,
        r@.url == spec_url(endpoint@, path@),
        r@.body == Seq::<char>::empty(),
        r@.headers == seq![("X-Ovh-Application"@, application_key@)],
{
    let url = build_url(endpoint, path);
    let mut headers: Vec<(String, String)> = Vec::new();
    headers.push((String::from_str("X-Ovh-Application"), application_key.to_owned()));
    proof {
        assert(headers@.map(|i: int, h: (String, String)| (h.0@, h.1@))
            =~= seq![("X-Ovh-Application"@, application_key@)]);
    }
    Request {
        method: String::from_str("GET"),
        url,
        headers,
        body: String::new(),
    }
}

/// Build an unauthenticated POST request for the login bootstrap:
/// the application header and a JSON content type; the body is sent
/// as given. The bootstrap runs before a consumer key exists, so
/// only the endpoint and the application key are needed.
pub fn post_unauthenticated_request(
    endpoint: &str,
    application_key: &str,
    path: &str,
    body: &str,
) -> (r: Request)
    ensures
        r@.method == "POST"@,
        r@.url == spec_url(endpoint@, path@),
        r@.body == body@,
        r@.headers == seq![
            ("Content-Type"@, "application/json"@),
            ("X-Ovh-Application"@, application_key@),
        ],
{
    let url = build_url(endpoint, path);
    let mut headers: Vec<(String, String)> = Vec::new();
    headers.push((String::from_str("Content-Type"), String::from_str("application/json")));
    headers.push((String::from_str("X-Ovh-Application"), application_key.to_owned()));
    proof {
        assert(headers@.map(|i: int, h: (String, String)| (h.0@, h.1@))
            =~= seq![
                ("Content-Type"@, "application/json"@),
                ("X-Ovh-Application"@, application_key@),
            ]);
    }
    Request {
        method: String::from_str("POST"),
        url,
        headers,
        body: body.to_owned(),
    }
}

/// A success status: 2xx.
pub open spec fn spec_is_success(status: u16) -> bool {
    200 <= status < 300
}

/// Whether the status is a success.
pub fn is_success(status: u16) -> (r: bool)
    ensures
        r == spec_is_success(status),
{
    200 <= status && status < 300
}

/// Classify the response of a GET, POST or PUT: success exactly on a
/// 2xx status, otherwise the failure carries the URL, the status and
/// the body text as received.
pub fn response_result(url: &str, status: u16, body: Option<String>) -> (r: Result<(), Error>)
    ensures
        spec_is_success(status) ==> r is Ok,
        !spec_is_success(status) ==> (r matches Err(e) && e@ == (ErrorView::RequestFailed {
            url: url@,
            status: status,
            body: match body {
                Some(b) => Some(b@),
                None => None,
            },
        })),
{
    if is_success(status) {
        Ok(())
    } else {
        Err(Error::RequestFailed { url: url.to_owned(), status, body })
    }
}

/// Classify the response of a DELETE: a 404 counts as success, the
/// record is already gone.
pub fn delete_response_result(url: &str, status: u16, body: Option<String>) -> (r: Result<(),
    Error>)
    ensures
        (spec_is_success(status) || status == 404) ==> r is Ok,
        !(spec_is_success(status) || status == 404) ==> (r matches Err(e)
            && e@ == (ErrorView::RequestFailed {
            url: url@,
            status: status,
            body: match body {
                Some(b) => Some(b@),
                None => None,
            },
        })),
{
    if is_success(status) || status == 404 {
        Ok(())
    } else {
        Err(Error::RequestFailed { url: url.to_owned(), status, body })
    }
}

} // verus!
