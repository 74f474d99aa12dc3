use drive_clone_api::errors::StorageError;
use drive_clone_api::files::CompletedUploadPart;
use drive_clone_api::s3::{
    complete_multipart_xml, escape_xml, extract_xml_text, head_object_result,
    multipart_upload_id, parse_head_response, percent_encode_path_segment, percent_encode_query,
    status_result, S3ObjectStorage, S3Settings, S3UrlStyle,
};
use drive_clone_api::sigv4::{
    canonical_query, canonical_request, canonical_uri, credential_scope, string_to_sign,
    text_le_exec,
};

fn storage(url_style: S3UrlStyle) -> S3ObjectStorage {
    S3ObjectStorage {
        endpoint_url: "https://storage.example/".to_string(),
        public_endpoint_url: "https://public-storage.example/".to_string(),
        bucket: "bucket-name".to_string(),
        region: "auto".to_string(),
        access_key_id: "access".to_string(),
        secret_access_key: "secret".to_string(),
        url_style,
    }
}

#[test]
fn path_style_urls_include_bucket_in_path() {
    let url = storage(S3UrlStyle::Path)
        .object_url("https://storage.example", "user-id/object-id")
        .unwrap();
    assert_eq!(url, "https://storage.example/bucket-name/user-id/object-id");
}

#[test]
fn virtual_host_urls_include_bucket_in_host() {
    let url = storage(S3UrlStyle::VirtualHost)
        .object_url("https://storage.example", "user-id/object-id")
        .unwrap();
    assert_eq!(url, "https://bucket-name.storage.example/user-id/object-id");
}

#[test]
fn parse_head_response_reads_content_length() {
    let metadata =
        parse_head_response(b"HTTP/1.1 200 OK\r\ncontent-length: 42\r\n\r\n").unwrap();
    assert_eq!(metadata.content_length, 42);
}

#[test]
fn parse_head_response_ignores_header_case_and_refuses_other_statuses() {
    let metadata =
        parse_head_response(b"HTTP/1.1 200 OK\r\nETag: x\r\nContent-Length:  7 \r\n\r\n").unwrap();
    assert_eq!(metadata.content_length, 7);
    assert_eq!(
        parse_head_response(b"HTTP/1.1 404 Not Found\r\ncontent-length: 42\r\n\r\n"),
        Err(StorageError::Unexpected)
    );
    assert_eq!(
        parse_head_response(b"HTTP/1.1 200 OK\r\netag: x\r\n\r\n"),
        Err(StorageError::Unexpected)
    );
    assert_eq!(
        parse_head_response(b"HTTP/1.1 200 OK\r\ncontent-length: many\r\n"),
        Err(StorageError::Unexpected)
    );
    assert_eq!(parse_head_response(b""), Err(StorageError::Unexpected));
}

#[test]
fn url_style_setting_defaults_to_path() {
    assert_eq!(S3UrlStyle::from_value(&None), Ok(S3UrlStyle::Path));
    assert_eq!(
        S3UrlStyle::from_value(&Some("virtual-host".to_string())),
        Ok(S3UrlStyle::VirtualHost)
    );
    assert_eq!(
        S3UrlStyle::from_value(&Some("hosted".to_string())),
        Err(StorageError::Unexpected)
    );
}

fn settings() -> S3Settings {
    S3Settings {
        endpoint_url: Some("https://storage.example".to_string()),
        public_endpoint_url: None,
        bucket: Some("bucket-name".to_string()),
        region: Some("auto".to_string()),
        access_key_id: Some("access".to_string()),
        secret_access_key: Some("secret".to_string()),
        url_style: None,
    }
}

#[test]
fn settings_fill_in_the_public_endpoint() {
    let s3 = S3ObjectStorage::from_settings(&settings()).unwrap();
    assert_eq!(s3.endpoint_url, "https://storage.example/");
    assert_eq!(s3.public_endpoint_url, "https://storage.example/");
    assert_eq!(s3.url_style, S3UrlStyle::Path);
    let mut missing = settings();
    missing.region = None;
    assert!(S3ObjectStorage::from_settings(&missing).is_err());
    let mut broken = settings();
    broken.endpoint_url = Some("not a url".to_string());
    assert!(S3ObjectStorage::from_settings(&broken).is_err());
}

#[test]
fn percent_encoding_keeps_unreserved_bytes_only() {
    assert_eq!(percent_encode_path_segment("a b~c"), "a%20b~c");
    assert_eq!(percent_encode_query("x/y=z"), "x%2Fy%3Dz");
    assert_eq!(percent_encode_query("é"), "%C3%A9");
}

#[test]
fn canonical_uri_keeps_slashes_and_encodes_the_rest() {
    assert_eq!(canonical_uri("/bucket/a b/c%2F"), "/bucket/a%20b/c%252F");
}

#[test]
fn canonical_query_sorts_encoded_pairs() {
    let pairs = vec![
        ("b".to_string(), "2".to_string()),
        ("a b".to_string(), "x".to_string()),
        ("a".to_string(), "z".to_string()),
        ("a".to_string(), "y".to_string()),
    ];
    assert_eq!(canonical_query(&pairs), "a=y&a=z&a%20b=x&b=2");
    assert_eq!(canonical_query(&Vec::new()), "");
}

#[test]
fn text_order_is_lexicographic() {
    assert!(text_le_exec("abc", "abd"));
    assert!(text_le_exec("ab", "abc"));
    assert!(!text_le_exec("b", "abc"));
    assert!(text_le_exec("", ""));
}

#[test]
fn canonical_request_and_string_to_sign_layout() {
    assert_eq!(
        canonical_request("GET", "/k", "a=b", "h:9000"),
        "GET\n/k\na=b\nhost:h:9000\n\nhost\nUNSIGNED-PAYLOAD"
    );
    assert_eq!(credential_scope("20240102", "auto"), "20240102/auto/s3/aws4_request");
    let text = string_to_sign("20240102T030405Z", "20240102/auto/s3/aws4_request", "");
    assert_eq!(
        text,
        "AWS4-HMAC-SHA256\n20240102T030405Z\n20240102/auto/s3/aws4_request\ne3b0c44298fc1c149afbf4c8996fb92427ae41e4649b934ca495991b7852b855"
    );
}

#[test]
fn presigned_urls_carry_the_signature_last() {
    let s3 = storage(S3UrlStyle::Path);
    // 2024-01-02T03:04:05Z
    let now: i64 = 1_704_164_645_000_000;
    let presigned = s3
        .presign_with_query_at("GET", "https://storage.example/", "u/o", 60, &Vec::new(), now)
        .unwrap();
    assert_eq!(presigned.expires_at, now + 60_000_000);
    let url = presigned.url;
    assert!(url.starts_with(
        "https://storage.example/bucket-name/u/o?X-Amz-Algorithm=AWS4-HMAC-SHA256&X-Amz-Credential=access%2F20240102%2Fauto%2Fs3%2Faws4_request&X-Amz-Date=20240102T030405Z&X-Amz-Expires=60&X-Amz-SignedHeaders=host&X-Amz-Signature="
    ));
    let signature = url.rsplit('=').next().unwrap();
    assert_eq!(signature.len(), 64);
    let part = s3
        .presign_upload_part("u/o", "up-1", 3, 600)
        .unwrap();
    assert!(part.url.contains("&partNumber=3&uploadId=up-1&X-Amz-Signature="));
}

#[test]
fn s3_replies_map_to_results() {
    assert_eq!(
        head_object_result(true, &Some("42".to_string())).unwrap().content_length,
        42
    );
    assert_eq!(head_object_result(false, &Some("42".to_string())), Err(StorageError::Unexpected));
    assert_eq!(head_object_result(true, &None), Err(StorageError::Unexpected));
    assert_eq!(
        multipart_upload_id(true, "<R><UploadId>abc</UploadId></R>"),
        Ok("abc".to_string())
    );
    assert_eq!(multipart_upload_id(true, "<R/>"), Err(StorageError::Unexpected));
    assert_eq!(status_result(true), Ok(()));
    assert_eq!(status_result(false), Err(StorageError::Unexpected));
}

#[test]
fn xml_helpers_escape_and_extract() {
    assert_eq!(escape_xml("a&b<\"'>"), "a&amp;b&lt;&quot;&apos;&gt;");
    assert_eq!(extract_xml_text("<a><b>x</b></a>", "b"), Some("x".to_string()));
    assert_eq!(extract_xml_text("<a></a>", "b"), None);
    let parts = vec![CompletedUploadPart { part_number: 1, etag: "\"e\"".to_string() }];
    assert_eq!(
        complete_multipart_xml(&parts),
        "<CompleteMultipartUpload><Part><PartNumber>1</PartNumber><ETag>&quot;e&quot;</ETag></Part></CompleteMultipartUpload>"
    );
}
