//! What goes on the wire: where each request is sent, under which host
//! name, and what the finished event looks like as text.

use crate::routing::Endpoint;
use crate::telemetry::FinishedEvent;
use vstd::prelude::*;
use vstd::string::StringExecFns;

verus! {

/// The path under which a backend takes chat completions.
pub const BACKEND_PATH: &'static str = "/v1/chat/completions";

/// The port on which the metrics collector listens.
pub const COLLECTOR_PORT: u16 = 3823;

/// The path under which the collector takes samples.
pub const METRICS_PATH: &'static str = "/metrics";

/// The path under which the collector takes finished events.
pub const FINISHED_PATH: &'static str = "/finished";

/// The front of the address of anything on the relay's own host.
pub const LOCAL_PREFIX: &'static str = "http://localhost:";

/// Why a request cannot be put together.
#[derive(Debug, Clone, Copy, PartialEq, Eq, Structural)]
pub enum WireError {
    /// The address of the request names no authority to send it to.
    NoAuthority,
}

/// The character for a digit's value.
pub open spec fn digit_char(d: nat) -> char {
    if d == 0 {
        '0'
    } else if d == 1 {
        '1'
    } else if d == 2 {
        '2'
    } else if d == 3 {
        '3'
    } else if d == 4 {
        '4'
    } else if d == 5 {
        '5'
    } else if d == 6 {
        '6'
    } else if d == 7 {
        '7'
    } else if d == 8 {
        '8'
    } else {
        '9'
    }
}

/// The decimal numeral of `n`, without leading zeros.
pub open spec fn decimal_text(n: nat) -> Seq<char>
    decreases n,
{
    if n < 10 {
        seq![digit_char(n)]
    } else {
        decimal_text(n / 10).push(digit_char(n % 10))
    }
}

/// The text of one digit.
fn digit_text(d: u16) -> (r: &'static str)
    requires
        d < 10,
    ensures
        r@ == seq![digit_char(d as nat)],
{
    proof {
        reveal_strlit("0");
        reveal_strlit("1");
        reveal_strlit("2");
        reveal_strlit("3");
        reveal_strlit("4");
        reveal_strlit("5");
        reveal_strlit("6");
        reveal_strlit("7");
        reveal_strlit("8");
        reveal_strlit("9");
    }
    let r = if d == 0 {
        "0"
    } else if d == 1 {
        "1"
    } else if d == 2 {
        "2"
    } else if d == 3 {
        "3"
    } else if d == 4 {
        "4"
    } else if d == 5 {
        "5"
    } else if d == 6 {
        "6"
    } else if d == 7 {
        "7"
    } else if d == 8 {
        "8"
    } else {
        "9"
    };
    assert(r@ =~= seq![digit_char(d as nat)]);
    r
}

/// Writes the decimal numeral of `n` at the end of `out`.
pub fn push_decimal(out: &mut String, n: u16)
    ensures
        final(out)@ == old(out)@ + decimal_text(n as nat),
    decreases n,
{
    if n >= 10 {
        push_decimal(out, n / 10);
    }
    out.append(digit_text(n % 10));
}

/// The address of `path` at `port` on the relay's own host.
pub open spec fn local_uri(port: u16, path: Seq<char>) -> Seq<char> {
    LOCAL_PREFIX@ + decimal_text(port as nat) + path
}

/// Writes the address of `path` at `port` on the relay's own host.
pub fn local_uri_text(port: u16, path: &str) -> (r: String)
    ensures
        r@ == local_uri(port, path@),
{
    let mut uri = String::from_str(LOCAL_PREFIX);
    push_decimal(&mut uri, port);
    uri.append(path);
    uri
}

/// The authority of the address `uri`, host and port, or nothing where
/// `uri` is no address or has no authority.
pub uninterp spec fn authority_of(uri: Seq<char>) -> Option<Seq<char>>;

/// Takes the authority out of an address with `hyper::Uri`: the address is
/// parsed by `Uri::from_str`, and `Uri::authority` with `Authority::as_str`
/// gives the authority's text. A text that does not parse gives nothing, as
/// does an address without authority. The result is a function of the text
/// alone, and `authority_of` is its name; nothing more is claimed of it.
#[verifier::external_body]
fn uri_authority(uri: &str) -> (r: Option<String>)
    ensures
        r.deep_view() == authority_of(uri@),
{
    match uri.parse::<hyper::Uri>() {
        Ok(parsed) => parsed.authority().map(|a| a.as_str().to_string()),
        Err(_) => None,
    }
}

/// The head of an outgoing request. Every request is a `POST`.
#[derive(Debug, Clone, PartialEq, Eq)]
pub struct RequestHead {
    /// The path to ask for.
    pub path: String,
    /// The value of the `Host` header.
    pub host: String,
    /// Whether the body is announced as JSON.
    pub json: bool,
}

/// A request head as a mathematical value.
pub struct RequestHeadView {
    pub path: Seq<char>,
    pub host: Seq<char>,
    pub json: bool,
}

impl View for RequestHead {
    type V = RequestHeadView;

    open spec fn view(&self) -> RequestHeadView {
        RequestHeadView { path: self.path@, host: self.host@, json: self.json }
    }
}

/// The head of a request for `path` that goes to the authority `host`.
pub open spec fn head_model(host: Option<Seq<char>>, path: Seq<char>, json: bool) -> Result<
    RequestHeadView,
    WireError,
> {
    match host {
        Some(host) => Ok(RequestHeadView { path, host, json }),
        None => Err(WireError::NoAuthority),
    }
}

/// Makes the head of a request for `path` from the authority found in its
/// address.
pub fn head_for(host: Option<String>, path: &str, json: bool) -> (r: Result<
    RequestHead,
    WireError,
>)
    ensures
        match r {
            Ok(head) => head_model(host.deep_view(), path@, json) == Ok::<
                RequestHeadView,
                WireError,
            >(head@),
            Err(e) => head_model(host.deep_view(), path@, json) == Err::<
                RequestHeadView,
                WireError,
            >(e),
        },
{
    match host {
        Some(host) => Ok(RequestHead { path: String::from_str(path), host, json }),
        None => Err(WireError::NoAuthority),
    }
}

/// Makes the head of a request for `path` at `port` on the relay's own
/// host. The `Host` header is the authority of that address.
pub fn request_head(port: u16, path: &str, json: bool) -> (r: Result<RequestHead, WireError>)
    ensures
        match r {
            Ok(head) => head_model(authority_of(local_uri(port, path@)), path@, json) == Ok::<
                RequestHeadView,
                WireError,
            >(head@),
            Err(e) => head_model(authority_of(local_uri(port, path@)), path@, json) == Err::<
                RequestHeadView,
                WireError,
            >(e),
        },
{
    let uri = local_uri_text(port, path);
    head_for(uri_authority(uri.as_str()), path, json)
}

/// Makes the head of the request that forwards a payload to a backend.
pub fn backend_head(endpoint: Endpoint) -> (r: Result<RequestHead, WireError>)
    ensures
        match r {
            Ok(head) => head_model(
                authority_of(local_uri(endpoint.port, BACKEND_PATH@)),
                BACKEND_PATH@,
                false,
            ) == Ok::<RequestHeadView, WireError>(head@),
            Err(e) => head_model(
                authority_of(local_uri(endpoint.port, BACKEND_PATH@)),
                BACKEND_PATH@,
                false,
            ) == Err::<RequestHeadView, WireError>(e),
        },
{
    request_head(endpoint.port, BACKEND_PATH, false)
}

/// Makes the head of the request that reports a sample to the collector.
pub fn metrics_head() -> (r: Result<RequestHead, WireError>)
    ensures
        match r {
            Ok(head) => head_model(
                authority_of(local_uri(COLLECTOR_PORT, METRICS_PATH@)),
                METRICS_PATH@,
                true,
            ) == Ok::<RequestHeadView, WireError>(head@),
            Err(e) => head_model(
                authority_of(local_uri(COLLECTOR_PORT, METRICS_PATH@)),
                METRICS_PATH@,
                true,
            ) == Err::<RequestHeadView, WireError>(e),
        },
{
    request_head(COLLECTOR_PORT, METRICS_PATH, true)
}

/// Makes the head of the request that reports a finished event to the
/// collector.
pub fn finished_head() -> (r: Result<RequestHead, WireError>)
    ensures
        match r {
            Ok(head) => head_model(
                authority_of(local_uri(COLLECTOR_PORT, FINISHED_PATH@)),
                FINISHED_PATH@,
                true,
            ) == Ok::<RequestHeadView, WireError>(head@),
            Err(e) => head_model(
                authority_of(local_uri(COLLECTOR_PORT, FINISHED_PATH@)),
                FINISHED_PATH@,
                true,
            ) == Err::<RequestHeadView, WireError>(e),
        },
{
    request_head(COLLECTOR_PORT, FINISHED_PATH, true)
}

/// What stands in front of the request's id in a finished event's body.
pub const FINISHED_OPENING: &'static str = "{\"userID\": \"";

/// What stands behind the request's id in a finished event's body.
pub const FINISHED_CLOSING: &'static str = "\"}";

/// The body of a finished event: a JSON object whose one member, `userID`,
/// is the request's id, written as it is.
pub open spec fn finished_text(request_id: Seq<char>) -> Seq<char> {
    FINISHED_OPENING@ + request_id + FINISHED_CLOSING@
}

/// Writes the body of a finished event.
pub fn finished_body(event: &FinishedEvent) -> (r: String)
    ensures
        r@ == finished_text(event.request_id@),
{
    let mut body = String::from_str(FINISHED_OPENING);
    body.append(event.request_id.as_str());
    body.append(FINISHED_CLOSING);
    body
}

} // verus!
