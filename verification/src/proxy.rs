//! The gateway: validation of incoming HTTP parameters, translation to the
//! store service's request types, and construction of the HTTP responses.
//!
//! Each endpoint is split at its suspension point. For `GET /get`,
//! [`store_get_request`] validates the query parameter and either builds the
//! `400` response or the [`GetRequest`] to forward; once the store's reply is
//! back, [`store_get_response`] builds the `200` response. `POST /set` is
//! handled the same way by [`store_set_request`] and [`store_set_response`].
//! A rejected call never produces a request, so no backend call can occur
//! for it.

use vstd::prelude::*;

verus! {

use vstd::string::StringExecFns;

use crate::json::{json_escape, json_escape_str};
use crate::messages::{GetRequest, GetResponse, SetRequest, SetResponse};

/// Configuration of the gateway: the address its HTTP listener binds, the
/// certificate and private-key files its TLS termination loads, and the
/// address of the store service it forwards to.
#[derive(Debug)]
pub struct Config {
    pub address: String,
    pub cert_path: String,
    pub key_path: String,
    pub store_url: String,
}

impl Config {
    /// Builds a configuration from already-parsed values. Reading them from
    /// the command line is the surrounding process's business.
    pub fn new(address: String, cert_path: String, key_path: String, store_url: String) -> (config:
        Self)
        ensures
            config.address@ == address@,
            config.cert_path@ == cert_path@,
            config.key_path@ == key_path@,
            config.store_url@ == store_url@,
    {
        Self { address, cert_path, key_path, store_url }
    }

    /// The configuration used when no argument overrides it: a loopback
    /// listener, credential files under `certs/`, and the store service's
    /// default address upstream.
    pub fn new_empty() -> (config: Self)
        ensures
            config.address@ == "127.0.0.1:3000"@,
            config.cert_path@ == "certs/cert.pem"@,
            config.key_path@ == "certs/key.pem"@,
            config.store_url@ == "https://[::1]:50051"@,
    {
        Self {
            address: "127.0.0.1:3000".to_owned(),
            cert_path: "certs/cert.pem".to_owned(),
            key_path: "certs/key.pem".to_owned(),
            store_url: "https://[::1]:50051".to_owned(),
        }
    }
}

/// One HTTP response of the gateway: a status code and a JSON body.
#[derive(Debug)]
pub struct HttpResponse {
    pub status: u16,
    pub body: String,
}

/// The error message of a `GET /get` whose key is missing or empty.
pub open spec fn get_error_message() -> Seq<char> {
    "key argument must be provided"@
}

/// The error message of a `POST /set` whose key or value is missing or empty.
pub open spec fn set_error_message() -> Seq<char> {
    "key and value arguments must be provided"@
}

/// The body of a validation failure: `{"error":"<message>"}`.
pub open spec fn error_body(message: Seq<char>) -> Seq<char> {
    "{\"error\":\""@ + message + "\"}"@
}

/// The body of a successful `GET /get`: `{"value":"<encoded value>"}` when
/// the key is bound, `{"value":null}` when it is absent.
pub open spec fn get_success_body(value: Option<Seq<char>>) -> Seq<char> {
    match value {
        Option::Some(v) => "{\"value\":\""@ + json_escape(v) + "\"}"@,
        Option::None => "{\"value\":null}"@,
    }
}

/// The body of a successful `POST /set`: an empty JSON object.
pub open spec fn set_success_body() -> Seq<char> {
    "{}"@
}

/// The views of an optional string's characters.
pub open spec fn value_view(value: Option<String>) -> Option<Seq<char>> {
    match value {
        Option::Some(v) => Option::Some(v@),
        Option::None => Option::None,
    }
}

/// Builds a `400 Bad Request` response carrying the given message.
fn bad_request(message: &str) -> (response: HttpResponse)
    ensures
        response.status == 400,
        response.body@ == error_body(message@),
{
    let mut body = String::from_str("{\"error\":\"");
    body.append(message);
    body.append("\"}");
    HttpResponse { status: 400, body }
}

/// Validates a `GET /get` call and translates it for the store service.
///
/// The key taken from the query is `None` when the parameter was absent.
/// A missing or empty key yields the `400` response with its specified
/// error body, and no request — so no backend call occurs for it. Any other
/// key yields exactly the `Get` request that forwards it.
pub fn store_get_request(key: Option<String>) -> (result: Result<GetRequest, HttpResponse>)
    ensures
        match result {
            Ok(request) => {
                &&& key matches Some(k) && k@ == request.key@
                &&& request.key@.len() > 0
            },
            Err(response) => {
                &&& key is None || (key matches Some(k) && k@.len() == 0)
                &&& response.status == 400
                &&& response.body@ == error_body(get_error_message())
            },
        },
{
    match key {
        Some(k) => {
            if k.as_str().is_empty() {
                Err(bad_request("key argument must be provided"))
            } else {
                Ok(GetRequest { key: k })
            }
        },
        None => Err(bad_request("key argument must be provided")),
    }
}

/// Translates the store service's `Get` reply into the HTTP response: always
/// `200`, with the value's encoding in the body, or the explicit `null`
/// marker when the key was absent — absence is a payload, not an error.
pub fn store_get_response(response: GetResponse) -> (http: HttpResponse)
    ensures
        http.status == 200,
        http.body@ == get_success_body(value_view(response.value)),
{
    match response.value {
        Some(v) => {
            let mut body = String::from_str("{\"value\":\"");
            let escaped = json_escape_str(v.as_str());
            body.append(escaped.as_str());
            body.append("\"}");
            HttpResponse { status: 200, body }
        },
        None => HttpResponse { status: 200, body: String::from_str("{\"value\":null}") },
    }
}

/// Validates a `POST /set` call and translates it for the store service.
///
/// The key and value taken from the request body are `None` when the field
/// was absent. A missing or empty key or value yields the `400` response
/// with its specified error body, and no request — so no backend mutation
/// occurs for it. Any other pair yields exactly the `Set` request that
/// forwards it.
pub fn store_set_request(key: Option<String>, value: Option<String>) -> (result: Result<
    SetRequest,
    HttpResponse,
>)
    ensures
        match result {
            Ok(request) => {
                &&& key matches Some(k) && k@ == request.key@
                &&& value matches Some(v) && v@ == request.value@
                &&& request.key@.len() > 0
                &&& request.value@.len() > 0
            },
            Err(response) => {
                &&& {
                    ||| key is None
                    ||| (key matches Some(k) && k@.len() == 0)
                    ||| value is None
                    ||| (value matches Some(v) && v@.len() == 0)
                }
                &&& response.status == 400
                &&& response.body@ == error_body(set_error_message())
            },
        },
{
    match (key, value) {
        (Some(k), Some(v)) => {
            if k.as_str().is_empty() || v.as_str().is_empty() {
                Err(bad_request("key and value arguments must be provided"))
            } else {
                Ok(SetRequest { key: k, value: v })
            }
        },
        _ => Err(bad_request("key and value arguments must be provided")),
    }
}

/// Translates the store service's `Set` reply into the HTTP response: `200`
/// with an empty JSON object.
pub fn store_set_response(response: SetResponse) -> (http: HttpResponse)
    ensures
        http.status == 200,
        http.body@ == set_success_body(),
{
    let SetResponse {  } = response;
    HttpResponse { status: 200, body: String::from_str("{}") }
}

} // verus!
