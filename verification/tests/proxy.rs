use s3_proxy::config::Endpoint;
use s3_proxy::config::Endpoints;
use s3_proxy::engine::BackendCommand;
use s3_proxy::engine::BackendError;
use s3_proxy::engine::BackendResponse;
use s3_proxy::engine::Method;
use s3_proxy::engine::RequestPlan;
use s3_proxy::engine::ResponseBody;
use s3_proxy::engine::complete_request;
use s3_proxy::engine::make_not_found_response;
use s3_proxy::engine::make_proxy_response;
use s3_proxy::engine::plan_request;
use s3_proxy::engine::response_for_backend_error;
use s3_proxy::engine::select_command;
use s3_proxy::headers::Headers;
use s3_proxy::range::RangeBound;
use s3_proxy::range::RangeSpec;
use s3_proxy::range::s3_range_for_header;
use s3_proxy::resolve::get_bucket_path;

fn media_table() -> Endpoints {
    Endpoints::from_vec(vec![Endpoint::new(
        "/media/".to_owned(),
        "/app/files".to_owned(),
    )])
}

#[test]
fn test_get_bucket_path() {
    let endpoints = Endpoints::from_vec(vec![Endpoint::new(
        "/media/".to_owned(),
        "/app/files".to_owned(),
    )]);

    let bucket_path = get_bucket_path("/media/foo/bar", &endpoints);

    assert_eq!(bucket_path.as_deref(), Some("/app/files/foo/bar"));
}

#[test]
fn test_get_bucket_path_trims_slashes() {
    let endpoints = Endpoints::from_vec(vec![Endpoint::new(
        "/media".to_owned(),
        "/app/files/".to_owned(),
    )]);

    let bucket_path = get_bucket_path("/media/foo/bar", &endpoints);

    assert_eq!(bucket_path.as_deref(), Some("/app/files/foo/bar"));
}

#[test]
fn test_unmatched_path_resolves_to_nothing() {
    let endpoints = media_table();

    assert_eq!(get_bucket_path("/unmatched/x", &endpoints), None);
}

#[test]
fn test_unmatched_path_plans_not_found() {
    let endpoints = media_table();

    let plan = plan_request(Method::Get, "/unmatched/x", &endpoints, None);
    assert!(matches!(plan, RequestPlan::NotFound));

    let response = make_not_found_response();
    assert_eq!(response.status, 404);
    match response.body {
        ResponseBody::Text(t) => assert_eq!(t, "File not found"),
        _ => panic!("expected a text body"),
    }
}

#[test]
fn test_longest_prefix_wins() {
    let broad_first = Endpoints::from_vec(vec![
        Endpoint::new("/media/".to_owned(), "/app/files".to_owned()),
        Endpoint::new("/media/images/".to_owned(), "/app/images".to_owned()),
    ]);
    let narrow_first = Endpoints::from_vec(vec![
        Endpoint::new("/media/images/".to_owned(), "/app/images".to_owned()),
        Endpoint::new("/media/".to_owned(), "/app/files".to_owned()),
    ]);

    for endpoints in [&broad_first, &narrow_first] {
        assert_eq!(
            get_bucket_path("/media/images/logo.png", endpoints).as_deref(),
            Some("/app/images/logo.png")
        );
        assert_eq!(
            get_bucket_path("/media/doc.txt", endpoints).as_deref(),
            Some("/app/files/doc.txt")
        );
    }
}

#[test]
fn test_range_open_end() {
    let ranges = vec![(RangeBound::Included(10), RangeBound::Unbounded)];
    assert_eq!(
        s3_range_for_header(&ranges),
        Some(RangeSpec { start: 10, end: None })
    );
}

#[test]
fn test_range_unbounded_both() {
    let ranges = vec![(RangeBound::Unbounded, RangeBound::Unbounded)];
    assert_eq!(
        s3_range_for_header(&ranges),
        Some(RangeSpec { start: 0, end: None })
    );
}

#[test]
fn test_range_bounded() {
    let ranges = vec![(RangeBound::Included(0), RangeBound::Included(99))];
    assert_eq!(
        s3_range_for_header(&ranges),
        Some(RangeSpec { start: 0, end: Some(99) })
    );
}

#[test]
fn test_multiple_ranges_fall_back_to_full_read() {
    let ranges = vec![
        (RangeBound::Included(0), RangeBound::Included(10)),
        (RangeBound::Included(20), RangeBound::Included(30)),
    ];
    assert_eq!(s3_range_for_header(&ranges), None);
    assert_eq!(
        select_command(Method::Get, Some(&ranges)),
        BackendCommand::FullRead
    );
}

#[test]
fn test_empty_range_set_means_no_range() {
    let ranges: Vec<(RangeBound, RangeBound)> = vec![];
    assert_eq!(s3_range_for_header(&ranges), None);
    assert_eq!(
        select_command(Method::Get, Some(&ranges)),
        BackendCommand::FullRead
    );
}

#[test]
fn test_get_with_single_range_reads_ranged() {
    let ranges = vec![(RangeBound::Included(5), RangeBound::Included(9))];
    assert_eq!(
        select_command(Method::Get, Some(&ranges)),
        BackendCommand::RangedRead(RangeSpec { start: 5, end: Some(9) })
    );
    assert_eq!(select_command(Method::Get, None), BackendCommand::FullRead);
}

#[test]
fn test_head_never_requests_a_range_read() {
    let ranges = vec![(RangeBound::Included(10), RangeBound::Unbounded)];
    assert_eq!(
        select_command(Method::Head, Some(&ranges)),
        BackendCommand::MetadataOnly
    );
    assert_eq!(select_command(Method::Head, None), BackendCommand::MetadataOnly);
}

#[test]
fn test_plan_forwards_resolved_key_and_command() {
    let endpoints = media_table();
    let ranges = vec![(RangeBound::Included(10), RangeBound::Unbounded)];

    let plan = plan_request(Method::Get, "/media/foo/bar", &endpoints, Some(&ranges));
    match plan {
        RequestPlan::Forward { bucket_path, command } => {
            assert_eq!(bucket_path, "/app/files/foo/bar");
            assert_eq!(
                command,
                BackendCommand::RangedRead(RangeSpec { start: 10, end: None })
            );
        }
        RequestPlan::NotFound => panic!("expected the plan to forward"),
    }
}

#[test]
fn test_backend_http_404_maps_to_not_found() {
    let err = BackendError::Http {
        status: 404,
        description: "HTTP 404".to_owned(),
    };
    let response = response_for_backend_error(err);
    assert_eq!(response.status, 404);
    match response.body {
        ResponseBody::Text(t) => assert_eq!(t, "File not found"),
        _ => panic!("expected a text body"),
    }
}

#[test]
fn test_backend_transport_error_maps_to_503() {
    let err = BackendError::Other {
        description: "connection refused".to_owned(),
    };
    let response = response_for_backend_error(err);
    assert_eq!(response.status, 503);
    match response.body {
        ResponseBody::Text(t) => {
            assert!(t.contains("Upstream error:"));
            assert_eq!(t, "Upstream error: connection refused");
        }
        _ => panic!("expected a text body"),
    }
}

#[test]
fn test_backend_http_500_maps_to_503() {
    let err = BackendError::Http {
        status: 500,
        description: "HTTP 500".to_owned(),
    };
    let response = response_for_backend_error(err);
    assert_eq!(response.status, 503);
    match response.body {
        ResponseBody::Text(t) => assert_eq!(t, "Upstream error: HTTP 500"),
        _ => panic!("expected a text body"),
    }
}

#[test]
fn test_proxy_response_forwards_allow_listed_headers() {
    let mut backend_headers = Headers::new();
    backend_headers.insert("content-type", "text/html".to_owned());
    backend_headers.insert("etag", "\"abc\"".to_owned());
    backend_headers.insert("x-internal", "secret".to_owned());

    let backend = BackendResponse {
        status: 206,
        headers: backend_headers,
        content_length: Some(42),
    };
    let response = make_proxy_response(backend);

    assert_eq!(response.status, 206);
    assert_eq!(response.content_length, Some(42));
    assert!(matches!(response.body, ResponseBody::Stream));
    assert_eq!(
        response.headers.get("content-type").map(String::as_str),
        Some("text/html")
    );
    assert_eq!(
        response.headers.get("etag").map(String::as_str),
        Some("\"abc\"")
    );
    assert_eq!(response.headers.get("x-internal"), None);
    assert_eq!(response.headers.get("content-range"), None);
}

#[test]
fn test_complete_request_success_and_failure() {
    let backend = BackendResponse {
        status: 200,
        headers: Headers::new(),
        content_length: None,
    };
    let ok = complete_request(Ok(backend));
    assert_eq!(ok.status, 200);
    assert!(matches!(ok.body, ResponseBody::Stream));

    let err = complete_request(Err(BackendError::Other {
        description: "timed out".to_owned(),
    }));
    assert_eq!(err.status, 503);
    match err.body {
        ResponseBody::Text(t) => assert_eq!(t, "Upstream error: timed out"),
        _ => panic!("expected a text body"),
    }
}
