use vstd::prelude::*;
use vstd::string::*;

use crate::config::CouchDbConfig;
use crate::text::{
    contains, decimal, eq_ascii_fold, eq_ignore_ascii_case, json_escaped, push_decimal, push_json_escaped,
    seq_contains, seq_starts_with, starts_with,
};
use crate::utils::{base64_encode, opt_view, standard_base64, BASE64_INPUT_LIMIT};
use vstd::utf8::encode_utf8;

verus! {

/// How a forwarded request is treated, decided from its path and query alone.
#[derive(PartialEq, Eq, Structural, Clone, Copy, Debug)]
pub enum RequestClass {
    /// A `_changes` feed held open by the backend until data arrives.
    LongPoll,
    /// Any other `_changes` request.
    Changes,
    /// A `_bulk_docs` write carrying many documents.
    BulkWrite,
    /// Everything else.
    Ordinary,
}

/// The view of an optional string slice.
pub open spec fn opt_str(q: Option<&str>) -> Option<Seq<char>> {
    match q {
        Some(s) => Some(s@),
        None => None,
    }
}

pub open spec fn spec_classify(path: Seq<char>, query: Option<Seq<char>>) -> RequestClass {
    if seq_contains(path, "/_changes"@) {
        if query is Some && seq_contains(query->Some_0, "feed=longpoll"@) {
            RequestClass::LongPoll
        } else {
            RequestClass::Changes
        }
    } else if seq_contains(path, "/_bulk_docs"@) {
        RequestClass::BulkWrite
    } else {
        RequestClass::Ordinary
    }
}

/// Classifies a request by its path and query string.
pub fn classify_request(path: &str, query: Option<&str>) -> (c: RequestClass)
    ensures
        c == spec_classify(path@, opt_str(query)),
{
    if contains(path, "/_changes") {
        let long_poll = match query {
            Some(q) => contains(q, "feed=longpoll"),
            None => false,
        };
        if long_poll {
            RequestClass::LongPoll
        } else {
            RequestClass::Changes
        }
    } else if contains(path, "/_bulk_docs") {
        RequestClass::BulkWrite
    } else {
        RequestClass::Ordinary
    }
}

pub const LONG_POLL_TIMEOUT_SECS: u64 = 120;
pub const CHANGES_TIMEOUT_SECS: u64 = 90;
pub const STANDARD_TIMEOUT_SECS: u64 = 60;
pub const LONG_POLL_KEEPALIVE_SECS: u64 = 30;
pub const LONG_POLL_BUFFER_LIMIT: usize = 1024 * 1024;
pub const BULK_WRITE_BUFFER_LIMIT: usize = 20 * 1024 * 1024;
pub const DEFAULT_BUFFER_LIMIT: usize = 5 * 1024 * 1024;

/// How requests of one class are sent and how much of the answer is buffered.
#[derive(PartialEq, Eq, Structural, Clone, Copy, Debug)]
pub struct ClassPolicy {
    /// Deadline of the whole backend exchange.
    pub timeout_secs: u64,
    /// TCP keep-alive interval, where one is asked for.
    pub keepalive_secs: Option<u64>,
    /// Largest response body that is buffered.
    pub buffer_limit: usize,
    /// Whether `Connection: keep-alive` and `Accept: application/json` are forced.
    pub force_keepalive_headers: bool,
}

pub open spec fn spec_policy(class: RequestClass) -> ClassPolicy {
    match class {
        RequestClass::LongPoll => ClassPolicy {
            timeout_secs: LONG_POLL_TIMEOUT_SECS,
            keepalive_secs: Some(LONG_POLL_KEEPALIVE_SECS),
            buffer_limit: LONG_POLL_BUFFER_LIMIT,
            force_keepalive_headers: true,
        },
        RequestClass::Changes => ClassPolicy {
            timeout_secs: CHANGES_TIMEOUT_SECS,
            keepalive_secs: None,
            buffer_limit: DEFAULT_BUFFER_LIMIT,
            force_keepalive_headers: true,
        },
        RequestClass::BulkWrite => ClassPolicy {
            timeout_secs: STANDARD_TIMEOUT_SECS,
            keepalive_secs: None,
            buffer_limit: BULK_WRITE_BUFFER_LIMIT,
            force_keepalive_headers: false,
        },
        RequestClass::Ordinary => ClassPolicy {
            timeout_secs: STANDARD_TIMEOUT_SECS,
            keepalive_secs: None,
            buffer_limit: DEFAULT_BUFFER_LIMIT,
            force_keepalive_headers: false,
        },
    }
}

/// The timeout, keep-alive and buffering policy of a request class.
pub fn policy_for(class: RequestClass) -> (p: ClassPolicy)
    ensures
        p == spec_policy(class),
{
    match class {
        RequestClass::LongPoll => ClassPolicy {
            timeout_secs: LONG_POLL_TIMEOUT_SECS,
            keepalive_secs: Some(LONG_POLL_KEEPALIVE_SECS),
            buffer_limit: LONG_POLL_BUFFER_LIMIT,
            force_keepalive_headers: true,
        },
        RequestClass::Changes => ClassPolicy {
            timeout_secs: CHANGES_TIMEOUT_SECS,
            keepalive_secs: None,
            buffer_limit: DEFAULT_BUFFER_LIMIT,
            force_keepalive_headers: true,
        },
        RequestClass::BulkWrite => ClassPolicy {
            timeout_secs: STANDARD_TIMEOUT_SECS,
            keepalive_secs: None,
            buffer_limit: BULK_WRITE_BUFFER_LIMIT,
            force_keepalive_headers: false,
        },
        RequestClass::Ordinary => ClassPolicy {
            timeout_secs: STANDARD_TIMEOUT_SECS,
            keepalive_secs: None,
            buffer_limit: DEFAULT_BUFFER_LIMIT,
            force_keepalive_headers: false,
        },
    }
}

/// The backend path of an inbound path: the proxy prefix `/db` (with its
/// slash) is removed; a path outside the prefix is kept.
pub open spec fn mapped_path(path: Seq<char>) -> Seq<char> {
    if seq_starts_with(path, "/db/"@) {
        path.subrange(4, path.len() as int)
    } else if seq_starts_with(path, "/db"@) {
        path.subrange(3, path.len() as int)
    } else {
        path
    }
}

/// Strips the proxy prefix from an inbound path.
pub fn map_path(path: &str) -> (r: String)
    ensures
        r@ == mapped_path(path@),
{
    proof {
        reveal_strlit("/db/");
        reveal_strlit("/db");
    }
    let n = path.unicode_len();
    if starts_with(path, "/db/") {
        path.substring_char(4, n).to_owned()
    } else if starts_with(path, "/db") {
        path.substring_char(3, n).to_owned()
    } else {
        path.to_owned()
    }
}

/// The `?query` suffix of a target URI.
pub open spec fn query_suffix(query: Option<Seq<char>>) -> Seq<char> {
    match query {
        Some(q) => seq!['?'] + q,
        None => Seq::empty(),
    }
}

/// The backend URI of an inbound request: base URL, mapped path, query.
pub open spec fn spec_target_uri(base: Seq<char>, path: Seq<char>, query: Option<Seq<char>>) -> Seq<char> {
    base + mapped_path(path) + query_suffix(query)
}

/// Builds the backend URI for an inbound path and query.
pub fn target_uri(base_url: &str, path: &str, query: Option<&str>) -> (r: String)
    ensures
        r@ == spec_target_uri(base_url@, path@, opt_str(query)),
{
    let mut uri = base_url.to_owned();
    let mapped = map_path(path);
    uri.append(mapped.as_str());
    match query {
        Some(q) => {
            uri.append("?");
            uri.append(q);
            proof {
                reveal_strlit("?");
                assert(uri@ =~= spec_target_uri(base_url@, path@, opt_str(query)));
            }
        },
        None => {
            assert(uri@ =~= spec_target_uri(base_url@, path@, opt_str(query)));
        },
    }
    uri
}

/// The views of a list of header name/value pairs.
pub open spec fn header_views(hs: Seq<(String, String)>) -> Seq<(Seq<char>, Seq<char>)> {
    hs.map_values(|h: (String, String)| (h.0@, h.1@))
}

/// Whether an inbound header is copied to the backend request. `Host` and
/// `Authorization` never are; for the `_changes` classes neither are the
/// `Connection` and `Accept` headers that are forced instead.
pub open spec fn keeps_request_header(name: Seq<char>, force_keepalive: bool) -> bool {
    &&& !eq_ascii_fold(name, "host"@)
    &&& !eq_ascii_fold(name, "authorization"@)
    &&& !(force_keepalive && (eq_ascii_fold(name, "connection"@) || eq_ascii_fold(name, "accept"@)))
}

/// The inbound headers that are copied, in their order.
pub open spec fn kept_request_headers(hs: Seq<(Seq<char>, Seq<char>)>, force_keepalive: bool) -> Seq<(Seq<char>, Seq<char>)>
    decreases hs.len(),
{
    if hs.len() == 0 {
        Seq::empty()
    } else {
        let rest = kept_request_headers(hs.drop_last(), force_keepalive);
        if keeps_request_header(hs.last().0, force_keepalive) {
            rest.push(hs.last())
        } else {
            rest
        }
    }
}

/// The `Authorization` value for the backend: HTTP Basic over `user:password`,
/// used only when both are non-empty.
pub open spec fn spec_basic_auth(username: Seq<char>, password: Seq<char>) -> Option<Seq<char>> {
    if username.len() > 0 && password.len() > 0 {
        Some("Basic "@ + standard_base64(encode_utf8(username + seq![':'] + password)))
    } else {
        None
    }
}

/// The headers of the backend request: the copied inbound headers, then the
/// forced `_changes` headers, then the backend's own credentials.
pub open spec fn spec_request_headers(
    inbound: Seq<(Seq<char>, Seq<char>)>,
    class: RequestClass,
    auth: Option<Seq<char>>,
) -> Seq<(Seq<char>, Seq<char>)> {
    let force = spec_policy(class).force_keepalive_headers;
    let forced = if force {
        seq![("connection"@, "keep-alive"@), ("accept"@, "application/json"@)]
    } else {
        Seq::empty()
    };
    let auth_header = match auth {
        Some(v) => seq![("authorization"@, v)],
        None => Seq::empty(),
    };
    kept_request_headers(inbound, force) + forced + auth_header
}

/// The `Authorization` header value for the configured backend credentials,
/// or `None` where either is empty. Credentials whose encoding would not fit
/// in memory give `None` too.
pub fn basic_auth_value(username: &str, password: &str) -> (r: Option<String>)
    ensures
        r is Some ==> opt_view(r) == spec_basic_auth(username@, password@),
        r is None ==> spec_basic_auth(username@, password@) is None
            || encode_utf8(username@ + seq![':'] + password@).len() > BASE64_INPUT_LIMIT,
{
    if username.unicode_len() == 0 || password.unicode_len() == 0 {
        return None;
    }
    let mut joined = username.to_owned();
    joined.append(":");
    joined.append(password);
    proof {
        reveal_strlit(":");
        assert(joined@ =~= username@ + seq![':'] + password@);
    }
    if joined.as_str().as_bytes().len() > BASE64_INPUT_LIMIT {
        return None;
    }
    let encoded = base64_encode(joined.as_str());
    let mut value = "Basic ".to_owned();
    value.append(encoded.as_str());
    Some(value)
}

fn header(name: &str, value: &str) -> (h: (String, String))
    ensures
        h.0@ == name@,
        h.1@ == value@,
{
    (name.to_owned(), value.to_owned())
}

/// The headers of the backend request for `inbound` headers of a request of
/// `class`, authenticated as `auth` (see `basic_auth_value`).
pub fn request_headers(inbound: &Vec<(String, String)>, class: RequestClass, auth: Option<String>) -> (r: Vec<(String, String)>)
    ensures
        header_views(r@) == spec_request_headers(header_views(inbound@), class, opt_view(auth)),
{
    let force = policy_for(class).force_keepalive_headers;
    let mut out: Vec<(String, String)> = Vec::new();
    let mut i: usize = 0;
    while i < inbound.len()
        invariant
            i <= inbound@.len(),
            force == spec_policy(class).force_keepalive_headers,
            header_views(out@) =~= kept_request_headers(header_views(inbound@).take(i as int), force),
        decreases inbound@.len() - i,
    {
        let name = inbound[i].0.as_str();
        let keep = !eq_ignore_ascii_case(name, "host") && !eq_ignore_ascii_case(name, "authorization")
            && !(force && (eq_ignore_ascii_case(name, "connection") || eq_ignore_ascii_case(name, "accept")));
        proof {
            let hv = header_views(inbound@);
            assert(hv.take(i + 1).drop_last() =~= hv.take(i as int));
            assert(hv.take(i + 1).last() == hv[i as int]);
        }
        if keep {
            out.push((inbound[i].0.clone(), inbound[i].1.clone()));
        }
        i += 1;
    }
    proof {
        assert(header_views(inbound@).take(inbound@.len() as int) =~= header_views(inbound@));
    }
    if force {
        out.push(header("connection", "keep-alive"));
        out.push(header("accept", "application/json"));
    }
    match auth {
        Some(v) => {
            out.push(header("authorization", v.as_str()));
        },
        None => {},
    }
    assert(header_views(out@) =~= spec_request_headers(header_views(inbound@), class, opt_view(auth)));
    out
}

/// Everything the transport needs to send one request to the backend.
pub struct ForwardPlan {
    pub class: RequestClass,
    pub policy: ClassPolicy,
    pub url: String,
    pub headers: Vec<(String, String)>,
}

/// Plans the backend request for an inbound request: its class and policy,
/// its URI and its headers.
pub fn plan_forward(config: &CouchDbConfig, path: &str, query: Option<&str>, headers: &Vec<(String, String)>) -> (p: ForwardPlan)
    ensures
        p.class == spec_classify(path@, opt_str(query)),
        p.policy == spec_policy(p.class),
        p.url@ == spec_target_uri(config.url@, path@, opt_str(query)),
        spec_basic_auth(config.username@, config.password@) is None ==> header_views(p.headers@)
            == spec_request_headers(header_views(headers@), p.class, None),
        encode_utf8(config.username@ + seq![':'] + config.password@).len() <= BASE64_INPUT_LIMIT
            ==> header_views(p.headers@) == spec_request_headers(
            header_views(headers@),
            p.class,
            spec_basic_auth(config.username@, config.password@),
        ),
{
    let class = classify_request(path, query);
    let auth = basic_auth_value(config.username.as_str(), config.password.as_str());
    ForwardPlan {
        class,
        policy: policy_for(class),
        url: target_uri(config.url.as_str(), path, query),
        headers: request_headers(headers, class, auth),
    }
}

/// Whether a backend response header is copied to the client: the body is
/// re-framed, so `Transfer-Encoding` and `Content-Length` are not.
pub open spec fn keeps_response_header(name: Seq<char>) -> bool {
    !eq_ascii_fold(name, "transfer-encoding"@) && !eq_ascii_fold(name, "content-length"@)
}

/// The backend response headers that are copied, in their order.
pub open spec fn kept_response_headers(hs: Seq<(Seq<char>, Seq<char>)>) -> Seq<(Seq<char>, Seq<char>)>
    decreases hs.len(),
{
    if hs.len() == 0 {
        Seq::empty()
    } else {
        let rest = kept_response_headers(hs.drop_last());
        if keeps_response_header(hs.last().0) {
            rest.push(hs.last())
        } else {
            rest
        }
    }
}

/// Whether one of the headers is a `Content-Type`.
pub open spec fn has_content_type(hs: Seq<(Seq<char>, Seq<char>)>) -> bool {
    exists|i: int| 0 <= i < hs.len() && eq_ascii_fold(#[trigger] hs[i].0, "content-type"@)
}

/// The headers of a buffered response of `body_len` bytes: the backend's,
/// re-framed with a `Content-Length` of the buffered size, and typed as JSON
/// where the backend named no type.
pub open spec fn spec_response_headers(hs: Seq<(Seq<char>, Seq<char>)>, body_len: nat) -> Seq<(Seq<char>, Seq<char>)> {
    let typed = if has_content_type(hs) {
        Seq::empty()
    } else {
        seq![("content-type"@, "application/json"@)]
    };
    kept_response_headers(hs) + seq![("content-length"@, decimal(body_len))] + typed
}

/// The headers to send back with a buffered backend response.
pub fn response_headers(backend: &Vec<(String, String)>, body_len: u64) -> (r: Vec<(String, String)>)
    ensures
        header_views(r@) == spec_response_headers(header_views(backend@), body_len as nat),
{
    let mut out: Vec<(String, String)> = Vec::new();
    let mut typed = false;
    let mut i: usize = 0;
    while i < backend.len()
        invariant
            i <= backend@.len(),
            header_views(out@) =~= kept_response_headers(header_views(backend@).take(i as int)),
            typed == has_content_type(header_views(backend@).take(i as int)),
        decreases backend@.len() - i,
    {
        let name = backend[i].0.as_str();
        let is_type = eq_ignore_ascii_case(name, "content-type");
        let keep = !eq_ignore_ascii_case(name, "transfer-encoding") && !eq_ignore_ascii_case(name, "content-length");
        proof {
            let hv = header_views(backend@);
            let next = hv.take(i + 1);
            assert(next.drop_last() =~= hv.take(i as int));
            assert(next.last() == hv[i as int]);
            if typed || is_type {
                if is_type {
                    assert(eq_ascii_fold(next[i as int].0, "content-type"@));
                } else {
                    let j = choose|j: int| 0 <= j < i && eq_ascii_fold(#[trigger] hv.take(i as int)[j].0, "content-type"@);
                    assert(next[j].0 == hv.take(i as int)[j].0);
                }
            } else {
                assert forall|j: int| 0 <= j < i + 1 implies !eq_ascii_fold(#[trigger] next[j].0, "content-type"@) by {
                    if j < i {
                        assert(next[j].0 == hv.take(i as int)[j].0);
                    }
                }
            }
        }
        typed = typed || is_type;
        if keep {
            out.push((backend[i].0.clone(), backend[i].1.clone()));
        }
        i += 1;
    }
    proof {
        assert(header_views(backend@).take(backend@.len() as int) =~= header_views(backend@));
    }
    let mut length = String::new();
    push_decimal(&mut length, body_len);
    out.push(header("content-length", length.as_str()));
    if !typed {
        out.push(header("content-type", "application/json"));
    }
    assert(header_views(out@) =~= spec_response_headers(header_views(backend@), body_len as nat));
    out
}

/// Why a forward produced no backend response.
pub enum ForwardFailure {
    /// The client went away before the backend answered.
    Cancelled,
    /// The class's deadline passed.
    TimedOut,
    /// The backend could not be reached.
    ConnectFailed,
    /// Any other failure while sending, with its message.
    Transport(String),
    /// The backend answered but its body could not be read, with the message.
    BodyRead(String),
    /// The outbound request could not be built from the inbound one.
    InvalidRequest(String),
}

/// A response produced by the gateway itself.
pub struct GatewayResponse {
    pub status: u16,
    pub headers: Vec<(String, String)>,
    pub body: String,
}

/// The label of a class in error bodies.
pub open spec fn class_label(class: RequestClass) -> Seq<char> {
    match class {
        RequestClass::LongPoll => "longpoll"@,
        RequestClass::Changes => "changes"@,
        RequestClass::BulkWrite => "bulk_docs"@,
        RequestClass::Ordinary => "standard"@,
    }
}

pub open spec fn spec_failure_status(class: RequestClass, failure: ForwardFailure) -> u16 {
    match failure {
        ForwardFailure::Cancelled => if class == RequestClass::LongPoll { 204 } else { 502 },
        ForwardFailure::TimedOut => 504,
        ForwardFailure::ConnectFailed => 502,
        ForwardFailure::Transport(_) => 502,
        ForwardFailure::BodyRead(_) => 502,
        ForwardFailure::InvalidRequest(_) => 500,
    }
}

/// The JSON body of the gateway's answer to a failed forward.
pub open spec fn spec_failure_body(class: RequestClass, failure: ForwardFailure) -> Seq<char> {
    match failure {
        ForwardFailure::Cancelled => if class == RequestClass::LongPoll {
            "{\"ok\":true,\"reason\":\"request_aborted\"}"@
        } else {
            "{\"error\":\"Request was cancelled by the client\",\"reason\":\"request_aborted\"}"@
        },
        ForwardFailure::TimedOut => "{\"error\":\"Request timed out after "@
            + decimal(spec_policy(class).timeout_secs as nat) + " seconds\",\"reason\":\"timeout\",\"class\":\""@
            + class_label(class) + "\"}"@,
        ForwardFailure::ConnectFailed => "{\"error\":\"Failed to connect to the backend\",\"reason\":\"connection_failed\"}"@,
        ForwardFailure::Transport(m) => "{\"error\":\"Connection to the backend failed: "@ + json_escaped(m@)
            + "\",\"reason\":\"unexpected_error\"}"@,
        ForwardFailure::BodyRead(m) => "{\"error\":\"Failed to read response body: "@ + json_escaped(m@)
            + "\",\"reason\":\"body_read_failed\"}"@,
        ForwardFailure::InvalidRequest(m) => "{\"error\":\"Failed to build the backend request: "@ + json_escaped(m@)
            + "\",\"reason\":\"invalid_request\"}"@,
    }
}

fn class_label_str(class: RequestClass) -> (r: &'static str)
    ensures
        r@ == class_label(class),
{
    match class {
        RequestClass::LongPoll => "longpoll",
        RequestClass::Changes => "changes",
        RequestClass::BulkWrite => "bulk_docs",
        RequestClass::Ordinary => "standard",
    }
}

/// The well-formed JSON response that stands for a failed forward of a
/// request of `class`: a cancelled long-poll is an expected `204`, a timeout
/// a `504`, a backend that cannot be reached or read a `502`, a request that
/// cannot be built a `500`.
pub fn failure_response(class: RequestClass, failure: &ForwardFailure) -> (r: GatewayResponse)
    ensures
        r.status == spec_failure_status(class, *failure),
        r.body@ == spec_failure_body(class, *failure),
        header_views(r.headers@) == seq![("content-type"@, "application/json"@)],
{
    let mut body = String::new();
    let status: u16 = match failure {
        ForwardFailure::Cancelled => {
            if class == RequestClass::LongPoll {
                body.append("{\"ok\":true,\"reason\":\"request_aborted\"}");
                204
            } else {
                body.append("{\"error\":\"Request was cancelled by the client\",\"reason\":\"request_aborted\"}");
                502
            }
        },
        ForwardFailure::TimedOut => {
            body.append("{\"error\":\"Request timed out after ");
            push_decimal(&mut body, policy_for(class).timeout_secs);
            body.append(" seconds\",\"reason\":\"timeout\",\"class\":\"");
            body.append(class_label_str(class));
            body.append("\"}");
            504
        },
        ForwardFailure::ConnectFailed => {
            body.append("{\"error\":\"Failed to connect to the backend\",\"reason\":\"connection_failed\"}");
            502
        },
        ForwardFailure::Transport(m) => {
            body.append("{\"error\":\"Connection to the backend failed: ");
            push_json_escaped(&mut body, m.as_str());
            body.append("\",\"reason\":\"unexpected_error\"}");
            502
        },
        ForwardFailure::BodyRead(m) => {
            body.append("{\"error\":\"Failed to read response body: ");
            push_json_escaped(&mut body, m.as_str());
            body.append("\",\"reason\":\"body_read_failed\"}");
            502
        },
        ForwardFailure::InvalidRequest(m) => {
            body.append("{\"error\":\"Failed to build the backend request: ");
            push_json_escaped(&mut body, m.as_str());
            body.append("\",\"reason\":\"invalid_request\"}");
            500
        },
    };
    let mut headers: Vec<(String, String)> = Vec::new();
    headers.push(header("content-type", "application/json"));
    assert(header_views(headers@) =~= seq![("content-type"@, "application/json"@)]);
    GatewayResponse { status, headers, body }
}

} // verus!
