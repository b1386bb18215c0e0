use s3lite::client::{metrics_url, object_url, upload_url};

#[test]
fn upload_url_with_and_without_name() {
    assert_eq!(upload_url(None), "http://localhost:8080/objects");
    assert_eq!(upload_url(Some("my-data")), "http://localhost:8080/objects?name=my-data");
}

#[test]
fn download_and_metrics_urls() {
    assert_eq!(object_url("abcd"), "http://localhost:8080/objects/abcd");
    assert_eq!(metrics_url(), "http://localhost:8080/metrics");
}
