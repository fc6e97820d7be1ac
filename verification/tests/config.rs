use s3_proxy::config::Bucket;
use s3_proxy::config::Configuration;
use s3_proxy::config::Endpoint;
use s3_proxy::config::Endpoints;
use s3_proxy::config::Http;
use s3_proxy::headers::Headers;

fn sample_bucket() -> Bucket {
    Bucket {
        endpoint: Some("https://s3.fr-par.scw.cloud".to_owned()),
        region: "fr-par".to_owned(),
        bucket_name: "test".to_owned(),
        access_key: None,
        secret_key: None,
    }
}

#[test]
fn test_bucket_accessors() {
    let bucket = sample_bucket();
    assert_eq!(bucket.endpoint(), Some("https://s3.fr-par.scw.cloud"));
    assert_eq!(bucket.region(), "fr-par");
    assert_eq!(bucket.bucket_name(), "test");
}

#[test]
fn test_bucket_keys_fall_back_to_environment_values() {
    let mut bucket = sample_bucket();
    assert_eq!(
        bucket.access_key(Some("from-env".to_owned())),
        Some("from-env".to_owned())
    );
    assert_eq!(bucket.secret_key(None), None);

    bucket.access_key = Some("configured".to_owned());
    assert_eq!(
        bucket.access_key(Some("from-env".to_owned())),
        Some("configured".to_owned())
    );
}

#[test]
fn test_endpoint_accessors() {
    let endpoint = Endpoint::new("/media/".to_owned(), "/app/files".to_owned());
    assert_eq!(endpoint.path(), "/media/");
    assert_eq!(endpoint.bucket_path(), "/app/files");
}

#[test]
fn test_endpoints_sorted_longest_prefix_first() {
    let endpoints = Endpoints::from_vec(vec![
        Endpoint::new("/a/".to_owned(), "/one".to_owned()),
        Endpoint::new("/a/b/c/".to_owned(), "/three".to_owned()),
        Endpoint::new("/a/b/".to_owned(), "/two".to_owned()),
    ]);
    let order: Vec<&str> = endpoints.iter().iter().map(|e| e.path()).collect();
    assert_eq!(order, vec!["/a/b/c/", "/a/b/", "/a/"]);
}

#[test]
fn test_http_default_and_accessors() {
    let http = Http::default();
    assert_eq!(http.bind(), "127.0.0.1");
    assert_eq!(http.port(), 8000);

    let http = Http { bind: "0.0.0.0".to_owned(), port: 9000 };
    assert_eq!(http.bind(), "0.0.0.0");
    assert_eq!(http.port(), 9000);
}

#[test]
fn test_configuration_accessors_and_initialize() {
    let endpoints = Endpoints(vec![
        Endpoint::new("/a/".to_owned(), "/one".to_owned()),
        Endpoint::new("/a/b/".to_owned(), "/two".to_owned()),
    ]);
    let mut config = Configuration::new(sample_bucket(), endpoints, Http::default());
    config.initialize();

    assert_eq!(config.bucket().bucket_name(), "test");
    assert_eq!(config.http().port(), 8000);
    let order: Vec<&str> = config.endpoints().iter().iter().map(|e| e.path()).collect();
    assert_eq!(order, vec!["/a/b/", "/a/"]);
}

#[test]
fn test_headers_insert_replaces_and_keeps_others() {
    let mut headers = Headers::new();
    assert_eq!(headers.len(), 0);
    assert_eq!(headers.get("content-type"), None);

    headers.insert("content-type", "text/plain".to_owned());
    headers.insert("etag", "\"v1\"".to_owned());
    assert_eq!(headers.len(), 2);
    assert_eq!(
        headers.get("content-type").map(String::as_str),
        Some("text/plain")
    );

    headers.insert("content-type", "text/html".to_owned());
    assert_eq!(headers.len(), 2);
    assert_eq!(
        headers.get("content-type").map(String::as_str),
        Some("text/html")
    );
    assert_eq!(headers.get("etag").map(String::as_str), Some("\"v1\""));
}
