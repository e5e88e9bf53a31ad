//! The client of the ingestion endpoint: where a request goes, what
//! authorizes it, and how its outcome is judged. The caller performs the
//! HTTP exchange.

use vstd::prelude::*;
use vstd::string::StringExecFns;
use crate::auth::configured;
use crate::auth::Auth;
use crate::auth::AuthError;
use crate::env::get_env_var;
use crate::env::EnvError;
use crate::env::Environment;
use crate::error::HttpFailure;
use crate::form::UploadEnvelope;

verus! {

/// Why a request to the ingestion endpoint failed.
#[derive(Clone, Debug, PartialEq, Eq)]
pub enum Hik8sClientError {
    /// The exchange failed, or the server answered with a failure status.
    ReqwestError(HttpFailure),
    /// The exchange failed in the retry layer.
    ReqwestMiddlewareError(HttpFailure),
    /// A configuration value is missing.
    EnvError(EnvError),
    /// No bearer token could be had.
    AuthError(AuthError),
    /// The body could not be written as JSON.
    JsonError,
}

/// The number of times a request is tried again after a transient failure.
pub const MAX_RETRIES: u32 = 10;

/// The address of `route` on the ingestion endpoint.
pub open spec fn uri_text(insecure: bool, host: Seq<char>, port: Seq<char>, route: Seq<char>) -> Seq<
    char,
> {
    (if insecure {
        "http"@
    } else {
        "https"@
    }) + "://"@ + host + ":"@ + port + "/"@ + route
}

/// The value of the authorization header that carries `token`.
pub open spec fn bearer_text(token: Seq<char>) -> Seq<char> {
    "Bearer "@ + token
}

/// Whether a response status says that the request succeeded.
pub open spec fn is_success(status: u16) -> bool {
    200 <= status < 300
}

/// How an attempt at a request ended, as far as trying again goes.
#[derive(Clone, Copy, Debug, PartialEq, Eq, Structural)]
pub enum AnswerClass {
    /// The request was taken.
    Success,
    /// The attempt failed in a way that may pass: a network error, or a
    /// failure on the server's side.
    Transient,
    /// The attempt failed for good.
    Fatal,
}

/// What follows an attempt at a request.
#[derive(Clone, Copy, Debug, PartialEq, Eq, Structural)]
pub enum RetryStep {
    /// Wait this many milliseconds and try again; `retries` counts the
    /// attempts made after the first, this one included.
    Wait { millis: u64, retries: u32 },
    /// Make no further attempt.
    Stop,
}

/// Decides what follows an attempt, given how many retries were made before
/// it, how it ended, and how long the backoff policy would wait before the
/// next one (`None` where the policy gives up). Only a transient failure is
/// tried again, and never more than `MAX_RETRIES` times.
pub fn after_attempt(retries: u32, class: AnswerClass, wait: Option<u64>) -> (step: RetryStep)
    ensures
        step == match (class, wait) {
            (AnswerClass::Transient, Some(millis)) => if retries < MAX_RETRIES {
                RetryStep::Wait { millis, retries: (retries + 1) as u32 }
            } else {
                RetryStep::Stop
            },
            _ => RetryStep::Stop,
        },
{
    match (class, wait) {
        (AnswerClass::Transient, Some(millis)) => {
            if retries < MAX_RETRIES {
                RetryStep::Wait { millis, retries: retries + 1 }
            } else {
                RetryStep::Stop
            }
        },
        _ => RetryStep::Stop,
    }
}

/// The value of the authorization header that carries `token`.
pub fn bearer(token: &str) -> (header: String)
    ensures
        header@ == bearer_text(token@),
{
    let mut header = "Bearer ".to_owned();
    header.append(token);
    header
}

/// Judges how an exchange ended: `exchange` is the status that the server
/// answered with, or `None` where no answer came. Only a status of the 2xx
/// class is a success; any other status, and a missing answer, is a failure
/// that names the status.
pub fn check_response(exchange: Option<u16>) -> (outcome: Result<(), Hik8sClientError>)
    ensures
        outcome is Ok <==> (exchange matches Some(status) && is_success(status)),
        outcome matches Err(e) ==> e == Hik8sClientError::ReqwestError(
            HttpFailure { status: exchange },
        ),
{
    match exchange {
        Some(status) => {
            if 200 <= status && status < 300 {
                Ok(())
            } else {
                Err(Hik8sClientError::ReqwestError(HttpFailure { status: exchange }))
            }
        },
        None => Err(Hik8sClientError::ReqwestError(HttpFailure { status: None })),
    }
}

/// What a request to the ingestion endpoint carries.
pub enum RequestBody {
    /// A multipart form of a metadata part and a stream part.
    Multipart(UploadEnvelope),
    /// A JSON document, as text.
    Json(String),
}

/// A request as it leaves for the ingestion endpoint: a POST to `uri` with
/// the given authorization header, carrying `body`.
pub struct OutboundRequest {
    pub uri: String,
    pub authorization: String,
    pub body: RequestBody,
}

/// Where the ingestion endpoint is, and who the agent is towards the
/// identity provider.
pub struct Hik8sClient {
    pub insecure: bool,
    pub host: String,
    pub port: String,
    pub auth: Auth,
}

/// Whether `client` is the error that the variable `key` has no usable
/// value, for the reason `why`.
pub open spec fn names_variable<T>(
    client: Result<T, Hik8sClientError>,
    why: crate::env::VarError,
    key: Seq<char>,
) -> bool {
    &&& client matches Err(Hik8sClientError::EnvError(EnvError::EnvVar(w, name)))
    &&& w == why
    &&& name@ == key
}

impl Hik8sClient {
    /// The client that the environment describes. The host and the port of
    /// the endpoint must be there, and all that the identity needs; the
    /// first that is missing is the error. `insecure` asks for plain HTTP.
    pub fn new(insecure: bool, env: &Environment) -> (client: Result<Hik8sClient, Hik8sClientError>)
        ensures
            match crate::env::var(env.entries@, "HIK8S_HOST"@) {
                Err(why) => names_variable(client, why, "HIK8S_HOST"@),
                Ok(host) => match crate::env::var(env.entries@, "HIK8S_PORT"@) {
                    Err(why) => names_variable(client, why, "HIK8S_PORT"@),
                    Ok(port) => match client {
                        Ok(c) => {
                            &&& c.insecure == insecure
                            &&& c.host@ == host
                            &&& c.port@ == port
                            &&& configured(env.entries@, Ok(c.auth))
                        },
                        Err(Hik8sClientError::AuthError(e)) => configured(env.entries@, Err(e)),
                        Err(_) => false,
                    },
                },
            },
    {
        let host = match get_env_var(env, "HIK8S_HOST") {
            Ok(v) => v,
            Err(e) => {
                return Err(Hik8sClientError::EnvError(e));
            },
        };
        let port = match get_env_var(env, "HIK8S_PORT") {
            Ok(v) => v,
            Err(e) => {
                return Err(Hik8sClientError::EnvError(e));
            },
        };
        let auth = match Auth::new(env) {
            Ok(a) => a,
            Err(e) => {
                return Err(Hik8sClientError::AuthError(e));
            },
        };
        Ok(Hik8sClient { insecure, host, port, auth })
    }

    /// The address of `route` on the endpoint.
    pub fn get_uri(&self, route: &str) -> (uri: String)
        ensures
            uri@ == uri_text(self.insecure, self.host@, self.port@, route@),
    {
        let mut uri = if self.insecure {
            "http".to_owned()
        } else {
            "https".to_owned()
        };
        uri.append("://");
        uri.append(self.host.as_str());
        uri.append(":");
        uri.append(self.port.as_str());
        uri.append("/");
        uri.append(route);
        uri
    }

    /// The request that uploads `form` to `route` under the bearer token
    /// `token`.
    pub fn send_multipart_request(&self, route: &str, form: UploadEnvelope, token: &str) -> (request:
        OutboundRequest)
        ensures
            request.uri@ == uri_text(self.insecure, self.host@, self.port@, route@),
            request.authorization@ == bearer_text(token@),
            request.body == RequestBody::Multipart(form),
    {
        OutboundRequest {
            uri: self.get_uri(route),
            authorization: bearer(token),
            body: RequestBody::Multipart(form),
        }
    }

    /// The request that posts the JSON document `json` to `route` under the
    /// bearer token `token`.
    pub fn send_request(&self, route: &str, json: String, token: &str) -> (request: OutboundRequest)
        ensures
            request.uri@ == uri_text(self.insecure, self.host@, self.port@, route@),
            request.authorization@ == bearer_text(token@),
            request.body == RequestBody::Json(json),
    {
        OutboundRequest {
            uri: self.get_uri(route),
            authorization: bearer(token),
            body: RequestBody::Json(json),
        }
    }
}

/// Something that uploads envelopes: the ingestion endpoint, or a stand-in
/// for it.
pub trait Client {
    /// Uploads `form_data` to `route` and says whether the upload succeeded.
    fn send_multipart_request(&mut self, route: &str, form_data: UploadEnvelope) -> Result<
        (),
        Hik8sClientError,
    >;
}

/// A client together with the record of what it was handed. The record
/// grows only in `upload`, which hands the envelope to the client.
pub struct Uploader<C: Client> {
    pub client: C,
    handed: Ghost<Seq<UploadEnvelope>>,
}

impl<C: Client> Uploader<C> {
    /// The envelopes that the client was handed through this uploader, in
    /// order.
    pub closed spec fn handed(&self) -> Seq<UploadEnvelope> {
        self.handed@
    }

    /// The client that the uploader hands envelopes to.
    pub closed spec fn inner(&self) -> C {
        self.client
    }

    /// An uploader around `client`, which has handed over nothing yet.
    pub fn new(client: C) -> (uploader: Self)
        ensures
            uploader.inner() == client,
            uploader.handed() == Seq::<UploadEnvelope>::empty(),
    {
        Uploader { client, handed: Ghost(Seq::empty()) }
    }

    /// Hands `form_data` to the client for upload to `route` and passes on
    /// what the client answers. Whatever the answer, the envelope counts as
    /// handed over.
    pub fn upload(&mut self, route: &str, form_data: UploadEnvelope) -> (sent: Result<
        (),
        Hik8sClientError,
    >)
        ensures
            final(self).handed() == old(self).handed().push(form_data),
    {
        self.handed = Ghost(self.handed@.push(form_data));
        self.client.send_multipart_request(route, form_data)
    }
}

/// A stand-in for the ingestion endpoint that keeps what it is given.
pub struct MockHik8sClient {
    pub received_data: Vec<UploadEnvelope>,
}

impl MockHik8sClient {
    /// A stand-in that starts from what was received so far.
    pub fn new(received_data: Vec<UploadEnvelope>) -> (client: MockHik8sClient)
        ensures
            client.received_data == received_data,
    {
        MockHik8sClient { received_data }
    }
}

impl Client for MockHik8sClient {
    fn send_multipart_request(&mut self, route: &str, form_data: UploadEnvelope) -> (sent: Result<
        (),
        Hik8sClientError,
    >)
        ensures
            sent is Ok,
            final(self).received_data@ == old(self).received_data@.push(form_data),
    {
        self.received_data.push(form_data);
        Ok(())
    }
}

} // verus!
