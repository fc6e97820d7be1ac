//! The proxy engine: choosing the backend command for a request, shaping
//! the outbound response from a backend success, and mapping backend
//! failures to HTTP statuses.

use vstd::prelude::*;
use vstd::string::StringExecFns;

use crate::config::Endpoints;
use crate::headers::Headers;
use crate::headers::copy_headers;
use crate::headers::lookup_spec;
use crate::range::RangeBound;
use crate::range::RangeSpec;
use crate::range::no_excluded_bounds;
use crate::range::translate_spec;
use crate::range::s3_range_for_header;
use crate::resolve::get_bucket_path;
use crate::resolve::resolve_spec;

verus! {

/// The inbound methods this core serves.
#[derive(Clone, Copy, PartialEq, Eq, Debug)]
pub enum Method {
    Get,
    Head,
}

/// The closed set of request shapes issued to the object store.
#[derive(Clone, Copy, PartialEq, Eq, Debug)]
pub enum BackendCommand {
    FullRead,
    RangedRead(RangeSpec),
    MetadataOnly,
}

/// The view of an optional borrowed range header.
pub open spec fn ranges_view(ranges: Option<&Vec<(RangeBound, RangeBound)>>) -> Option<
    Seq<(RangeBound, RangeBound)>,
> {
    match ranges {
        Some(rs) => Some(rs@),
        None => None,
    }
}

/// Which backend command a request gets: `HEAD` always reads metadata
/// only; `GET` reads the single translated range when there is one, and
/// the whole object otherwise.
pub open spec fn command_spec(
    method: Method,
    ranges: Option<Seq<(RangeBound, RangeBound)>>,
) -> BackendCommand {
    match method {
        Method::Head => BackendCommand::MetadataOnly,
        Method::Get => match ranges {
            None => BackendCommand::FullRead,
            Some(rs) => match translate_spec(rs) {
                Some(spec) => BackendCommand::RangedRead(spec),
                None => BackendCommand::FullRead,
            },
        },
    }
}

/// Law: a `HEAD` request never issues a range read, whatever `Range`
/// header it carries.
pub proof fn lemma_head_never_ranged(ranges: Option<Seq<(RangeBound, RangeBound)>>)
    ensures
        command_spec(Method::Head, ranges) == BackendCommand::MetadataOnly,
{
}

/// Law: a `Range` header with more than one byte-range set falls back to a
/// full read on `GET`; it never becomes an error.
pub proof fn lemma_multi_range_full_read(ranges: Seq<(RangeBound, RangeBound)>)
    requires
        ranges.len() != 1,
    ensures
        command_spec(Method::Get, Some(ranges)) == BackendCommand::FullRead,
{
}

/// Selects the backend command for a request from its method and its
/// parsed `Range` header, if any.
pub fn select_command(method: Method, ranges: Option<&Vec<(RangeBound, RangeBound)>>) -> (c:
    BackendCommand)
    requires
        match ranges {
            Some(rs) => no_excluded_bounds(rs@),
            None => true,
        },
    ensures
        c == command_spec(method, ranges_view(ranges)),
        method is Head ==> c is MetadataOnly,
{
    match method {
        Method::Head => BackendCommand::MetadataOnly,
        Method::Get => match ranges {
            None => BackendCommand::FullRead,
            Some(rs) => match s3_range_for_header(rs) {
                Some(spec) => BackendCommand::RangedRead(spec),
                None => BackendCommand::FullRead,
            },
        },
    }
}

/// What a successful backend call exposes to the engine: its HTTP status,
/// its response headers, and its reported content length when it has one.
pub struct BackendResponse {
    pub status: u16,
    pub headers: Headers,
    pub content_length: Option<u64>,
}

/// A failed backend call: either an HTTP-level status from the backend or
/// any other failure, each with the upstream error's own description.
pub enum BackendError {
    Http { status: u16, description: String },
    Other { description: String },
}

/// The outbound body: the backend's byte stream forwarded chunk by chunk
/// without buffering the whole payload, or a short plain-text message.
pub enum ResponseBody {
    Stream,
    Text(String),
}

/// The outbound response the engine hands to the HTTP transport.
pub struct ProxyResponse {
    pub status: u16,
    pub headers: Headers,
    pub content_length: Option<u64>,
    pub body: ResponseBody,
}

/// The upstream error's own description, as the failure carries it.
pub open spec fn spec_description(err: BackendError) -> Seq<char> {
    match err {
        BackendError::Http { description, .. } => description@,
        BackendError::Other { description } => description@,
    }
}

/// A backend failure that reports HTTP 404 from the backend itself.
pub open spec fn is_backend_not_found(err: BackendError) -> bool {
    err matches BackendError::Http { status, .. } && status == 404
}

/// The not-found response: status 404, no forwarded headers, and a fixed
/// plain-text body.
pub open spec fn is_not_found_response(r: ProxyResponse) -> bool {
    &&& r.status == 404
    &&& r.headers@.len() == 0
    &&& r.content_length is None
    &&& (r.body matches ResponseBody::Text(t) && t@ == "File not found"@)
}

/// The service-unavailable response for a backend failure: status 503 and
/// a plain-text body naming the upstream error.
pub open spec fn is_upstream_error_response(r: ProxyResponse, err: BackendError) -> bool {
    &&& r.status == 503
    &&& r.headers@.len() == 0
    &&& r.content_length is None
    &&& (r.body matches ResponseBody::Text(t) && t@ == "Upstream error: "@ + spec_description(err))
}

/// The header names forwarded from the backend response, and no others.
pub open spec fn allowed_header(n: Seq<char>) -> bool {
    n == "content-type"@ || n == "content-range"@ || n == "etag"@
}

/// The response built from a backend success: the backend's status and
/// content length verbatim, exactly the allow-listed headers it supplied,
/// and its body streamed through.
pub open spec fn is_success_response(r: ProxyResponse, backend: BackendResponse) -> bool {
    &&& r.status == backend.status
    &&& r.content_length == backend.content_length
    &&& r.body is Stream
    &&& forall|n: Seq<char>|
        #[trigger] lookup_spec(r.headers@, n) == if allowed_header(n) {
            lookup_spec(backend.headers@, n)
        } else {
            None::<Seq<char>>
        }
}

/// The `404 Not Found` response with its plain-text body.
pub fn make_not_found_response() -> (r: ProxyResponse)
    ensures
        is_not_found_response(r),
{
    ProxyResponse {
        status: 404,
        headers: Headers::new(),
        content_length: None,
        body: ResponseBody::Text("File not found".to_owned()),
    }
}

/// Shapes the outbound response from a successful backend call: status and
/// content length pass through verbatim (a `206 Partial Content` flows
/// unchanged), only the allow-listed headers are forwarded, and the body
/// streams through.
pub fn make_proxy_response(backend: BackendResponse) -> (r: ProxyResponse)
    ensures
        is_success_response(r, backend),
{
    let mut headers = Headers::new();
    let names: Vec<String> = vec![
        "content-type".to_owned(),
        "content-range".to_owned(),
        "etag".to_owned(),
    ];
    proof {
        assert(names.deep_view() =~= seq!["content-type"@, "content-range"@, "etag"@]);
    }
    copy_headers(&mut headers, &backend.headers, &names);
    proof {
        assert forall|n: Seq<char>| #[trigger] names.deep_view().contains(n) implies allowed_header(
            n,
        ) by {
            let w = choose|w: int|
                0 <= w < names.deep_view().len() && names.deep_view()[w] == n;
        }
        assert forall|n: Seq<char>| allowed_header(n) implies names.deep_view().contains(n) by {
            if n == "content-type"@ {
                assert(names.deep_view()[0] == n);
            } else if n == "content-range"@ {
                assert(names.deep_view()[1] == n);
            } else {
                assert(names.deep_view()[2] == n);
            }
        }
    }
    ProxyResponse {
        status: backend.status,
        headers,
        content_length: backend.content_length,
        body: ResponseBody::Stream,
    }
}

/// The plain-text `503 Service Unavailable` body for an upstream failure.
fn make_upstream_error_response(description: String) -> (r: ProxyResponse)
    ensures
        r.status == 503,
        r.headers@.len() == 0,
        r.content_length is None,
        (r.body matches ResponseBody::Text(t) && t@ == "Upstream error: "@ + description@),
{
    let mut body: String = "Upstream error: ".to_owned();
    body.append(description.as_str());
    ProxyResponse {
        status: 503,
        headers: Headers::new(),
        content_length: None,
        body: ResponseBody::Text(body),
    }
}

/// Maps a backend failure to the outbound response: an HTTP 404 from the
/// backend becomes the generic not-found response, leaking no backend
/// detail; every other failure becomes a 503 naming the upstream error.
pub fn response_for_backend_error(err: BackendError) -> (r: ProxyResponse)
    ensures
        is_backend_not_found(err) ==> is_not_found_response(r),
        !is_backend_not_found(err) ==> is_upstream_error_response(r, err),
{
    match err {
        BackendError::Http { status, description } => {
            if status == 404 {
                make_not_found_response()
            } else {
                make_upstream_error_response(description)
            }
        },
        BackendError::Other { description } => make_upstream_error_response(description),
    }
}

/// What the engine decides before any backend call: give up with the
/// not-found response, or forward a command to a backend key.
pub enum RequestPlan {
    NotFound,
    Forward { bucket_path: String, command: BackendCommand },
}

/// Resolves the request path against the endpoint table and, when it
/// resolves, selects the backend command; an unresolved path short-circuits
/// to `NotFound` before any backend call.
pub fn plan_request(
    method: Method,
    path: &str,
    endpoints: &Endpoints,
    ranges: Option<&Vec<(RangeBound, RangeBound)>>,
) -> (p: RequestPlan)
    requires
        match ranges {
            Some(rs) => no_excluded_bounds(rs@),
            None => true,
        },
    ensures
        match resolve_spec(endpoints@, path@) {
            Some(key) => p matches RequestPlan::Forward { bucket_path, command }
                && bucket_path@ == key && command == command_spec(method, ranges_view(ranges)),
            None => p is NotFound,
        },
{
    match get_bucket_path(path, endpoints) {
        Some(bucket_path) => RequestPlan::Forward {
            bucket_path,
            command: select_command(method, ranges),
        },
        None => RequestPlan::NotFound,
    }
}

/// Turns the backend call's outcome into the outbound response: a success
/// is shaped by `make_proxy_response`; a failure is mapped by
/// `response_for_backend_error`. No backend failure propagates further.
pub fn complete_request(outcome: Result<BackendResponse, BackendError>) -> (r: ProxyResponse)
    ensures
        match outcome {
            Ok(backend) => is_success_response(r, backend),
            Err(err) => if is_backend_not_found(err) {
                is_not_found_response(r)
            } else {
                is_upstream_error_response(r, err)
            },
        },
{
    match outcome {
        Ok(backend) => make_proxy_response(backend),
        Err(err) => response_for_backend_error(err),
    }
}

} // verus!
