use vstd::prelude::*;
use vstd::string::*;

use crate::text::{contains, replace_char, replace_char_with, seq_contains};

verus! {

/// Tallies of the requests seen, by outcome and by kind. Each count stops at
/// its largest value.
pub struct RequestCounts {
    pub total: u64,
    pub success: u64,
    pub error: u64,
    pub longpoll_requests: u64,
    pub longpoll_errors: u64,
    pub bulk_docs_requests: u64,
    pub bulk_docs_errors: u64,
}

/// One more, stopping at the largest value.
pub open spec fn bump(n: u64) -> u64 {
    if n < u64::MAX {
        (n + 1) as u64
    } else {
        n
    }
}

fn bump_exec(n: u64) -> (r: u64)
    ensures
        r == bump(n),
{
    n.saturating_add(1)
}

/// Whether a status code counts as a success.
pub open spec fn is_success(status: u16) -> bool {
    status < 400
}

/// The counts after recording a request to `path` that ended with `status`.
/// `path` is the request path with its query, so that long-polls can be told
/// apart.
pub open spec fn spec_recorded(c: RequestCounts, path: Seq<char>, status: u16) -> RequestCounts {
    let ok = is_success(status);
    let long_poll = seq_contains(path, "/_changes"@) && seq_contains(path, "feed=longpoll"@);
    let bulk = seq_contains(path, "/_bulk_docs"@);
    RequestCounts {
        total: bump(c.total),
        success: if ok { bump(c.success) } else { c.success },
        error: if ok { c.error } else { bump(c.error) },
        longpoll_requests: if long_poll { bump(c.longpoll_requests) } else { c.longpoll_requests },
        longpoll_errors: if long_poll && !ok { bump(c.longpoll_errors) } else { c.longpoll_errors },
        bulk_docs_requests: if bulk { bump(c.bulk_docs_requests) } else { c.bulk_docs_requests },
        bulk_docs_errors: if bulk && !ok { bump(c.bulk_docs_errors) } else { c.bulk_docs_errors },
    }
}

/// The class of a status code: `1xx` to `5xx`, with everything from 500 up in `5xx`.
pub open spec fn spec_status_range(status: u16) -> Seq<char> {
    if status < 200 {
        "1xx"@
    } else if status < 300 {
        "2xx"@
    } else if status < 400 {
        "3xx"@
    } else if status < 500 {
        "4xx"@
    } else {
        "5xx"@
    }
}

/// The class label of a status code.
pub fn status_range(status: u16) -> (r: &'static str)
    ensures
        r@ == spec_status_range(status),
{
    if status < 200 {
        "1xx"
    } else if status < 300 {
        "2xx"
    } else if status < 400 {
        "3xx"
    } else if status < 500 {
        "4xx"
    } else {
        "5xx"
    }
}

/// A path as it appears inside a metric name, with `/` written as `_`.
pub open spec fn metric_path(path: Seq<char>) -> Seq<char> {
    replace_char(path, '/', '_')
}

/// The name of the counter of requests to `path` with `method` and `status`.
pub open spec fn spec_request_metric_name(path: Seq<char>, method: Seq<char>, status: u16) -> Seq<char> {
    "http_requests_path_"@ + metric_path(path) + "_method_"@ + method + "_status_"@ + spec_status_range(status)
}

/// The name of the histogram of durations of requests to `path`.
pub open spec fn spec_duration_metric_name(path: Seq<char>) -> Seq<char> {
    "http_request_duration_seconds_"@ + metric_path(path)
}

/// The name of the histogram of forwarded requests to `path` with `method`.
pub open spec fn spec_proxy_metric_name(path: Seq<char>, method: Seq<char>) -> Seq<char> {
    "http_request_duration_seconds_path_"@ + metric_path(path) + "_method_"@ + method
}

/// The outcome label of a counter.
pub open spec fn result_label(success: bool) -> Seq<char> {
    if success {
        "success"@
    } else {
        "failure"@
    }
}

/// The name of the counter of document syncs into `db_name`.
pub open spec fn spec_document_sync_metric_name(db_name: Seq<char>, success: bool) -> Seq<char> {
    "document_sync_database_"@ + db_name + "_result_"@ + result_label(success)
}

/// The name of the counter of replications from `source` to `target`.
pub open spec fn spec_replication_metric_name(source: Seq<char>, target: Seq<char>, success: bool) -> Seq<char> {
    "replication_source_"@ + source + "_target_"@ + target + "_result_"@ + result_label(success)
}

fn result_label_str(success: bool) -> (r: &'static str)
    ensures
        r@ == result_label(success),
{
    if success {
        "success"
    } else {
        "failure"
    }
}

fn metric_path_of(path: &str) -> (r: String)
    ensures
        r@ == metric_path(path@),
{
    proof {
        reveal_strlit("_");
    }
    replace_char_with(path, '/', "_")
}

/// The counter name for a request to `path` with `method` ending with `status`.
pub fn request_metric_name(path: &str, method: &str, status: u16) -> (r: String)
    ensures
        r@ == spec_request_metric_name(path@, method@, status),
{
    let mut r = "http_requests_path_".to_owned();
    r.append(metric_path_of(path).as_str());
    r.append("_method_");
    r.append(method);
    r.append("_status_");
    r.append(status_range(status));
    r
}

/// The histogram name for the durations of requests to `path`.
pub fn duration_metric_name(path: &str) -> (r: String)
    ensures
        r@ == spec_duration_metric_name(path@),
{
    let mut r = "http_request_duration_seconds_".to_owned();
    r.append(metric_path_of(path).as_str());
    r
}

/// The histogram name for forwarded requests to `path` with `method`.
pub fn proxy_metric_name(path: &str, method: &str) -> (r: String)
    ensures
        r@ == spec_proxy_metric_name(path@, method@),
{
    let mut r = "http_request_duration_seconds_path_".to_owned();
    r.append(metric_path_of(path).as_str());
    r.append("_method_");
    r.append(method);
    r
}

/// The counter name for a document sync into `db_name`.
pub fn document_sync_metric_name(db_name: &str, success: bool) -> (r: String)
    ensures
        r@ == spec_document_sync_metric_name(db_name@, success),
{
    let mut r = "document_sync_database_".to_owned();
    r.append(db_name);
    r.append("_result_");
    r.append(result_label_str(success));
    r
}

/// The counter name for a replication from `source` to `target`.
pub fn replication_metric_name(source: &str, target: &str, success: bool) -> (r: String)
    ensures
        r@ == spec_replication_metric_name(source@, target@, success),
{
    let mut r = "replication_source_".to_owned();
    r.append(source);
    r.append("_target_");
    r.append(target);
    r.append("_result_");
    r.append(result_label_str(success));
    r
}

impl RequestCounts {
    /// All counts at zero.
    pub fn new() -> (r: RequestCounts)
        ensures
            r == (RequestCounts {
                total: 0,
                success: 0,
                error: 0,
                longpoll_requests: 0,
                longpoll_errors: 0,
                bulk_docs_requests: 0,
                bulk_docs_errors: 0,
            }),
    {
        RequestCounts {
            total: 0,
            success: 0,
            error: 0,
            longpoll_requests: 0,
            longpoll_errors: 0,
            bulk_docs_requests: 0,
            bulk_docs_errors: 0,
        }
    }

    /// Counts a request to `path` (with its query) that ended with `status`.
    pub fn record(&mut self, path: &str, status: u16)
        ensures
            *final(self) == spec_recorded(*old(self), path@, status),
    {
        let ok = status < 400;
        let long_poll = contains(path, "/_changes") && contains(path, "feed=longpoll");
        let bulk = contains(path, "/_bulk_docs");
        self.total = bump_exec(self.total);
        if ok {
            self.success = bump_exec(self.success);
        } else {
            self.error = bump_exec(self.error);
        }
        if long_poll {
            self.longpoll_requests = bump_exec(self.longpoll_requests);
            if !ok {
                self.longpoll_errors = bump_exec(self.longpoll_errors);
            }
        }
        if bulk {
            self.bulk_docs_requests = bump_exec(self.bulk_docs_requests);
            if !ok {
                self.bulk_docs_errors = bump_exec(self.bulk_docs_errors);
            }
        }
    }
}

} // verus!
