use vstd::prelude::*;
use vstd::string::StringExecFns;
use crate::json::{Json, JsonModel, jget, json_of, parse_json};
use crate::error::FdwError;
use crate::listing::opt_string_view;
use crate::text::{url_enc, url_encode};

verus! {

/// The client credentials and the at-most-one cached bearer token. Absence
/// of the cache is the only "needs fetch" signal; a 401/403 answer is the
/// only "needs refresh" signal.
pub struct TokenStore {
    pub client_id: String,
    pub client_secret: String,
    pub cached: Option<String>,
}

#[derive(Debug, PartialEq, Clone, Copy)]
pub enum HttpMethod {
    Get,
    Post,
}

/// A request handed to the transport, as plain values.
pub struct HttpRequest {
    pub method: HttpMethod,
    pub url: String,
    pub headers: Vec<(String, String)>,
    pub body: String,
}

/// A response handed back by the transport.
pub struct HttpResponse {
    pub status: u16,
    pub body: String,
}

pub open spec fn token_url_chars(base: Seq<char>) -> Seq<char> {
    base + "/auth/token"@
}

pub open spec fn token_body_chars(cid: Seq<char>, secret: Seq<char>) -> Seq<char> {
    "client_id="@ + url_enc(cid) + "&client_secret="@ + url_enc(secret)
}

/// The form-encoded POST that obtains a token.
pub open spec fn is_token_request(
    req: HttpRequest,
    base: Seq<char>,
    cid: Seq<char>,
    secret: Seq<char>,
) -> bool {
    &&& req.method is Post
    &&& req.url@ == token_url_chars(base)
    &&& req.body@ == token_body_chars(cid, secret)
    &&& req.headers@.len() == 2
    &&& req.headers@[0].0@ == "content-type"@
    &&& req.headers@[0].1@ == "application/x-www-form-urlencoded"@
    &&& req.headers@[1].0@ == "accept"@
    &&& req.headers@[1].1@ == "application/json"@
}

pub open spec fn bearer_chars(token: Seq<char>) -> Seq<char> {
    "Bearer "@ + token
}

/// The GET with a bearer token and a JSON accept header.
pub open spec fn is_get_request(req: HttpRequest, url: Seq<char>, token: Seq<char>) -> bool {
    &&& req.method is Get
    &&& req.url@ == url
    &&& req.body@.len() == 0
    &&& req.headers@.len() == 2
    &&& req.headers@[0].0@ == "accept"@
    &&& req.headers@[0].1@ == "application/json"@
    &&& req.headers@[1].0@ == "authorization"@
    &&& req.headers@[1].1@ == bearer_chars(token)
}

/// Build the token-endpoint POST for the stored credentials.
pub fn token_request(base: &str, client_id: &str, client_secret: &str) -> (req: HttpRequest)
    ensures
        is_token_request(req, base@, client_id@, client_secret@),
{
    let mut url = base.to_owned();
    url.append("/auth/token");
    let mut body = "client_id=".to_owned();
    let e1 = url_encode(client_id);
    body.append(e1.as_str());
    body.append("&client_secret=");
    let e2 = url_encode(client_secret);
    body.append(e2.as_str());
    let mut headers: Vec<(String, String)> = Vec::new();
    headers.push(("content-type".to_owned(), "application/x-www-form-urlencoded".to_owned()));
    headers.push(("accept".to_owned(), "application/json".to_owned()));
    let req = HttpRequest { method: HttpMethod::Post, url, headers, body };
    proof {
        assert(req.url@ =~= token_url_chars(base@));
        assert(req.body@ =~= token_body_chars(client_id@, client_secret@));
    }
    req
}

/// Build the authenticated GET for `url` carrying `token`.
pub fn get_request(url: &String, token: &str) -> (req: HttpRequest)
    ensures
        is_get_request(req, url@, token@),
{
    let mut auth = "Bearer ".to_owned();
    auth.append(token);
    let mut headers: Vec<(String, String)> = Vec::new();
    headers.push(("accept".to_owned(), "application/json".to_owned()));
    headers.push(("authorization".to_owned(), auth));
    let req = HttpRequest {
        method: HttpMethod::Get,
        url: url.clone(),
        headers,
        body: String::new(),
    };
    proof {
        assert(req.headers@[1].1@ =~= bearer_chars(token@));
    }
    req
}

/// The bearer token a token-endpoint answer yields, when it yields one: a
/// 2xx status whose body is a JSON object holding a string `access_token`,
/// an integer `expires_in` and a string `token_type`. Demanding the two
/// metadata fields is deliberate: the endpoint's documented answer shape
/// lists them as non-optional, and the adapter has always rejected a body
/// without them — but they are never used for proactive expiry; an empty
/// cache and a 401/403 answer are the only freshness signals.
pub open spec fn token_of_response(status: u16, body: Seq<char>) -> Option<Seq<char>> {
    if !(200 <= status < 300) {
        Option::None
    } else {
        match json_of(body) {
            Option::Some(m) => match (jget(m, "access_token"@), jget(m, "expires_in"@), jget(
                m,
                "token_type"@,
            )) {
                (
                    Option::Some(JsonModel::Text(t)),
                    Option::Some(JsonModel::Int(_)),
                    Option::Some(JsonModel::Text(_)),
                ) => Option::Some(t),
                _ => Option::None,
            },
            Option::None => Option::None,
        }
    }
}

/// Read a token-endpoint answer: the token on success, an authentication
/// failure carrying the status and the raw body otherwise.
pub fn parse_token_response(resp: &HttpResponse) -> (r: Result<String, FdwError>)
    ensures
        match r {
            Ok(t) => token_of_response(resp.status, resp.body@) == Option::Some(t@),
            Err(e) => token_of_response(resp.status, resp.body@) is None && (e matches
                FdwError::Authentication { status, body } && status == resp.status && body@
                == resp.body@),
        },
{
    if !(200 <= resp.status && resp.status < 300) {
        return Err(FdwError::Authentication { status: resp.status, body: resp.body.clone() });
    }
    match parse_json(resp.body.as_str()) {
        Some(j) => {
            let tok = match j.get("access_token") {
                Some(t) => match t.as_text() {
                    Some(ts) => Some(ts),
                    None => None,
                },
                None => None,
            };
            let expires_ok = match j.get("expires_in") {
                Some(v) => v.as_i64().is_some(),
                None => false,
            };
            let type_ok = match j.get("token_type") {
                Some(v) => v.as_text().is_some(),
                None => false,
            };
            match tok {
                Some(t) if expires_ok && type_ok => Ok(t),
                _ => Err(
                    FdwError::Authentication { status: resp.status, body: resp.body.clone() },
                ),
            }
        },
        None => Err(FdwError::Authentication { status: resp.status, body: resp.body.clone() }),
    }
}

/// Which round-trip of one authenticated fetch is outstanding. One fetch
/// makes at most three round-trips: a token request when the cache is
/// empty, the GET itself, and after a 401/403 answer one forced refresh
/// followed by one retried GET.
pub enum FetchPhase {
    /// The token request that precedes the first GET of this fetch.
    TokenBeforeGet,
    /// The first GET.
    FirstGet,
    /// The token refresh forced by a 401/403 answer to the first GET.
    TokenForRetry,
    /// The single retried GET; its answer is final whatever its status.
    RetryGet,
}

/// One authenticated JSON fetch in flight: the fixed request URL and the
/// outstanding round-trip.
pub struct FetchCall {
    pub url: String,
    pub phase: FetchPhase,
}

/// What the machine asks next: hand the request to the transport and feed
/// the answer back through `on_response`, or the fetch is over.
pub enum FetchStep {
    Send(FetchCall, HttpRequest),
    Done(u16, Json),
    Failed(FdwError),
}

/// The abstract outcome of one machine step.
pub enum FetchOutcomeModel {
    SendTokenReq { next_phase: FetchPhase },
    SendGetReq { next_phase: FetchPhase, token: Seq<char> },
    Done { status: u16, doc: JsonModel },
    FailedAuth { status: u16, body: Seq<char> },
    FailedProtocol,
}

/// The fetch protocol itself: what one answer does to the machine, and the
/// token cache it leaves behind. A 401/403 answer to the first GET forces
/// exactly one refresh; any other status on the first GET, and every status
/// on the retried GET, is returned as-is; a body that is not well-formed
/// JSON on whichever answer is ultimately returned is a protocol failure.
pub open spec fn fetch_step(
    phase: FetchPhase,
    cached: Option<Seq<char>>,
    status: u16,
    body: Seq<char>,
) -> (FetchOutcomeModel, Option<Seq<char>>) {
    match phase {
        FetchPhase::TokenBeforeGet => match token_of_response(status, body) {
            Option::Some(t) => (
                FetchOutcomeModel::SendGetReq { next_phase: FetchPhase::FirstGet, token: t },
                Option::Some(t),
            ),
            Option::None => (FetchOutcomeModel::FailedAuth { status, body }, cached),
        },
        FetchPhase::FirstGet => if status == 401 || status == 403 {
            (FetchOutcomeModel::SendTokenReq { next_phase: FetchPhase::TokenForRetry }, cached)
        } else {
            match json_of(body) {
                Option::Some(m) => (FetchOutcomeModel::Done { status, doc: m }, cached),
                Option::None => (FetchOutcomeModel::FailedProtocol, cached),
            }
        },
        FetchPhase::TokenForRetry => match token_of_response(status, body) {
            Option::Some(t) => (
                FetchOutcomeModel::SendGetReq { next_phase: FetchPhase::RetryGet, token: t },
                Option::Some(t),
            ),
            Option::None => (FetchOutcomeModel::FailedAuth { status, body }, cached),
        },
        FetchPhase::RetryGet => match json_of(body) {
            Option::Some(m) => (FetchOutcomeModel::Done { status, doc: m }, cached),
            Option::None => (FetchOutcomeModel::FailedProtocol, cached),
        },
    }
}

/// Does the executable step realize the abstract outcome, for a machine
/// working under `base` with the given credentials and request URL.
pub open spec fn step_matches(
    s: FetchStep,
    om: FetchOutcomeModel,
    base: Seq<char>,
    cid: Seq<char>,
    secret: Seq<char>,
    url: Seq<char>,
) -> bool {
    match om {
        FetchOutcomeModel::SendTokenReq { next_phase } => s matches FetchStep::Send(c2, req)
            && c2.url@ == url && c2.phase == next_phase && is_token_request(req, base, cid, secret),
        FetchOutcomeModel::SendGetReq { next_phase, token } => s matches FetchStep::Send(c2, req)
            && c2.url@ == url && c2.phase == next_phase && is_get_request(req, url, token),
        FetchOutcomeModel::Done { status, doc } => s matches FetchStep::Done(st, j) && st == status
            && j@ == doc,
        FetchOutcomeModel::FailedAuth { status, body } => s matches FetchStep::Failed(e) && (e
            matches FdwError::Authentication { status: st, body: b } && st == status && b@ == body),
        FetchOutcomeModel::FailedProtocol => s matches FetchStep::Failed(e) && e matches
            FdwError::Protocol { .. },
    }
}

/// Open one authenticated fetch of `url`: a GET when a token is cached, else
/// the token request that will precede it.
pub fn start_fetch(store: &TokenStore, base: &str, url: String) -> (s: FetchStep)
    ensures
        match store.cached {
            Option::Some(t) => step_matches(
                s,
                FetchOutcomeModel::SendGetReq { next_phase: FetchPhase::FirstGet, token: t@ },
                base@,
                store.client_id@,
                store.client_secret@,
                url@,
            ),
            Option::None => step_matches(
                s,
                FetchOutcomeModel::SendTokenReq { next_phase: FetchPhase::TokenBeforeGet },
                base@,
                store.client_id@,
                store.client_secret@,
                url@,
            ),
        },
{
    match &store.cached {
        Some(t) => {
            let req = get_request(&url, t.as_str());
            FetchStep::Send(FetchCall { url, phase: FetchPhase::FirstGet }, req)
        },
        None => {
            let req = token_request(base, store.client_id.as_str(), store.client_secret.as_str());
            FetchStep::Send(FetchCall { url, phase: FetchPhase::TokenBeforeGet }, req)
        },
    }
}

/// Feed one transport answer to the machine. The credentials never change;
/// the token cache changes exactly as the protocol says; the step returned
/// realizes the protocol's outcome for this phase and answer.
pub fn on_response(store: &mut TokenStore, base: &str, call: FetchCall, resp: &HttpResponse) -> (s:
    FetchStep)
    ensures
        final(store).client_id == old(store).client_id,
        final(store).client_secret == old(store).client_secret,
        ({
            let (om, cache2) = fetch_step(
                call.phase,
                opt_string_view(old(store).cached),
                resp.status,
                resp.body@,
            );
            &&& opt_string_view(final(store).cached) == cache2
            &&& step_matches(
                s,
                om,
                base@,
                old(store).client_id@,
                old(store).client_secret@,
                call.url@,
            )
        }),
{
    match call.phase {
        FetchPhase::TokenBeforeGet | FetchPhase::TokenForRetry => {
            match parse_token_response(resp) {
                Ok(t) => {
                    let req = get_request(&call.url, t.as_str());
                    let next = match call.phase {
                        FetchPhase::TokenBeforeGet => FetchPhase::FirstGet,
                        _ => FetchPhase::RetryGet,
                    };
                    store.cached = Some(t);
                    FetchStep::Send(FetchCall { url: call.url, phase: next }, req)
                },
                Err(e) => FetchStep::Failed(e),
            }
        },
        FetchPhase::FirstGet => {
            if resp.status == 401 || resp.status == 403 {
                let req = token_request(
                    base,
                    store.client_id.as_str(),
                    store.client_secret.as_str(),
                );
                FetchStep::Send(FetchCall { url: call.url, phase: FetchPhase::TokenForRetry }, req)
            } else {
                match parse_json(resp.body.as_str()) {
                    Some(j) => FetchStep::Done(resp.status, j),
                    None => FetchStep::Failed(
                        FdwError::Protocol { detail: "invalid json".to_owned() },
                    ),
                }
            }
        },
        FetchPhase::RetryGet => {
            match parse_json(resp.body.as_str()) {
                Some(j) => FetchStep::Done(resp.status, j),
                None => FetchStep::Failed(FdwError::Protocol { detail: "invalid json".to_owned() }),
            }
        },
    }
}

/// Auth retry, stated of the protocol: a first GET answered 401 forces one
/// token refresh and no more; a good refresh stores the fresh token and
/// re-issues the same GET once; the retried GET's 200 answer is returned
/// as-is. No step of this run touches the cache otherwise.
pub proof fn lemma_auth_retry_refreshes_once(
    cached: Option<Seq<char>>,
    body1: Seq<char>,
    tok_status: u16,
    tok_body: Seq<char>,
    body2: Seq<char>,
)
    requires
        token_of_response(tok_status, tok_body) is Some,
        json_of(body2) is Some,
    ensures
        fetch_step(FetchPhase::FirstGet, cached, 401, body1) == (
            (FetchOutcomeModel::SendTokenReq { next_phase: FetchPhase::TokenForRetry }),
            cached,
        ),
        fetch_step(FetchPhase::TokenForRetry, cached, tok_status, tok_body) == (
            (FetchOutcomeModel::SendGetReq {
                next_phase: FetchPhase::RetryGet,
                token: token_of_response(tok_status, tok_body)->Some_0,
            }),
            Option::Some(token_of_response(tok_status, tok_body)->Some_0),
        ),
        fetch_step(
            FetchPhase::RetryGet,
            Option::Some(token_of_response(tok_status, tok_body)->Some_0),
            200,
            body2,
        ) == (
            (FetchOutcomeModel::Done { status: 200, doc: json_of(body2)->Some_0 }),
            Option::Some(token_of_response(tok_status, tok_body)->Some_0),
        ),
{
}

/// Any first-GET status other than 401/403 — a 500 included — is returned
/// as-is, with no token refresh and the cache untouched.
pub proof fn lemma_other_status_returned_without_refresh(
    cached: Option<Seq<char>>,
    status: u16,
    body: Seq<char>,
)
    requires
        status != 401,
        status != 403,
        json_of(body) is Some,
    ensures
        fetch_step(FetchPhase::FirstGet, cached, status, body) == (
            (FetchOutcomeModel::Done { status, doc: json_of(body)->Some_0 }),
            cached,
        ),
{
}

} // verus!
