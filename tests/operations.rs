use base64::Engine;
use cos_client::{
    content_type_of_path, decode_payload, delete_response, download_response, file_extension,
    head_response, infer_content_type, list_response, object_size, trim_etag, CosClient,
    CosConfig, CosError, CosHeaders, DeletePlan, ObjectMetadata, Operation, UploadOptions,
    UploadStep,
};
use hmac::{Hmac, Mac};
use sha1::{Digest, Sha1};

fn config(dir: Option<&str>) -> CosConfig {
    CosConfig {
        app_id: "1250000000".to_string(),
        secret_id: "AKIDEXAMPLE".to_string(),
        secret_key: "secretkey".to_string(),
        bucket: "demo".to_string(),
        region: "ap-guangzhou".to_string(),
        domain: None,
        dir: dir.map(|d| d.to_string()),
    }
}

fn entries(pairs: &[(&str, &str)]) -> Vec<(String, String)> {
    pairs.iter().map(|(k, v)| (k.to_string(), v.to_string())).collect()
}

fn hmac_hex(key: &[u8], msg: &[u8]) -> String {
    let mut m = Hmac::<Sha1>::new_from_slice(key).unwrap();
    m.update(msg);
    hex::encode(m.finalize().into_bytes())
}

fn header<'a>(headers: &'a [(String, String)], name: &str) -> Option<&'a str> {
    headers.iter().find(|(k, _)| k == name).map(|(_, v)| v.as_str())
}

fn with_pic(ops: &str) -> Option<UploadOptions> {
    Some(UploadOptions {
        callback: None,
        headers: Some(CosHeaders { content_type: None, pic_operations: Some(ops.to_string()) }),
    })
}

#[test]
fn signature_matches_independent_computation() {
    let c = CosClient::new(config(None));
    let headers = entries(&[("Host", "demo.cos.ap-guangzhou.myqcloud.com"), ("Content-Type", "image/png")]);
    let params = entries(&[("Prefix", "a b"), ("max-keys", "10")]);
    let token = c.generate_signature_at(1700000000, "GET", "/x", &headers, &params);

    let kt = "1699999940;1700003600";
    let canonical = "get\n/x\nmax-keys=10&prefix=a%20b\ncontent-type=image%2Fpng&host=demo.cos.ap-guangzhou.myqcloud.com\n";
    let sign_key = hmac_hex(b"secretkey", kt.as_bytes());
    let to_sign = format!("sha1\n{}\n{}\n", kt, hex::encode(Sha1::digest(canonical.as_bytes())));
    let signature = hmac_hex(sign_key.as_bytes(), to_sign.as_bytes());
    let expected = format!(
        "q-sign-algorithm=sha1&q-ak=AKIDEXAMPLE&q-sign-time={kt}&q-key-time={kt}&q-header-list=content-type;host&q-url-param-list=max-keys;prefix&q-signature={signature}"
    );
    assert_eq!(token, expected);
}

#[test]
fn signatures_differ_only_in_time_fields() {
    let c = CosClient::new(config(None));
    let headers = entries(&[("host", "demo.cos.ap-guangzhou.myqcloud.com")]);
    let params = entries(&[("delete", "")]);
    let a = c.generate_signature_at(1700000000, "POST", "/", &headers, &params);
    let b = c.generate_signature_at(1700000005, "POST", "/", &headers, &params);
    let again = c.generate_signature_at(1700000000, "POST", "/", &headers, &params);
    assert_eq!(a, again);
    let fa: Vec<&str> = a.split('&').collect();
    let fb: Vec<&str> = b.split('&').collect();
    assert_eq!(fa.len(), 7);
    assert_eq!(fb.len(), 7);
    for (x, y) in fa.iter().zip(fb.iter()) {
        let name = x.split('=').next().unwrap();
        if ["q-sign-time", "q-key-time", "q-signature"].contains(&name) {
            assert_ne!(x, y);
        } else {
            assert_eq!(x, y);
        }
    }
    assert_eq!(fa[2], "q-sign-time=1699999940;1700003600");
    assert_eq!(fb[2], "q-sign-time=1699999945;1700003605");
}

#[test]
fn signature_with_clock_has_window_of_an_hour() {
    let c = CosClient::new(config(None));
    let token = c.generate_signature("HEAD", "/ImSheet/a", &entries(&[("host", "h")]), &Vec::new());
    let kt = token.split('&').nth(2).unwrap().trim_start_matches("q-sign-time=");
    let mut parts = kt.split(';').map(|p| p.parse::<i64>().unwrap());
    let start = parts.next().unwrap();
    let end = parts.next().unwrap();
    assert_eq!(end - start, 3660);
    assert!(token.contains("&q-header-list=host&q-url-param-list=&"));
}

#[test]
fn content_type_inference() {
    assert_eq!(infer_content_type(".png"), "image/png");
    assert_eq!(infer_content_type(".PNG"), "application/octet-stream");
    assert_eq!(infer_content_type(".txt"), "application/octet-stream");
    assert_eq!(infer_content_type(".jpg"), "image/jpeg");
    assert_eq!(infer_content_type(".jpeg"), "image/jpeg");
    assert_eq!(infer_content_type(".gif"), "image/gif");
    assert_eq!(infer_content_type(".webp"), "image/webp");
    assert_eq!(infer_content_type(".bmp"), "image/bmp");
    assert_eq!(content_type_of_path("/tmp/photo.webp"), "image/webp");
    assert_eq!(content_type_of_path("/tmp/photo.JPG"), "application/octet-stream");
    assert_eq!(content_type_of_path("/tmp/noext"), "application/octet-stream");
    assert_eq!(content_type_of_path("/tmp/.png"), "application/octet-stream");
}

#[test]
fn path_extensions() {
    assert_eq!(file_extension("a/b.tar.gz"), Some("gz".to_string()));
    assert_eq!(file_extension("a/.png"), None);
    assert_eq!(file_extension("a/b."), Some("".to_string()));
    assert_eq!(file_extension("x.png/"), Some("png".to_string()));
    assert_eq!(file_extension(".."), None);
    assert_eq!(file_extension("plain"), None);
    assert_eq!(file_extension(""), None);
}

#[test]
fn upload_request_is_signed_put() {
    let c = CosClient::new(config(Some("assets")));
    let plan = c.prepare_upload(1700000000, "/tmp/pic.png", "pic.png", 42, &None);
    assert_eq!(plan.full_key, "assets/pic.png");
    assert!(!plan.processing);
    assert_eq!(plan.request.method, "PUT");
    assert_eq!(plan.request.url, "https://demo.cos.ap-guangzhou.myqcloud.com/assets/pic.png");
    assert_eq!(header(&plan.request.headers, "Content-Type"), Some("image/png"));
    assert_eq!(header(&plan.request.headers, "Content-Length"), Some("42"));
    assert_eq!(header(&plan.request.headers, "Pic-Operations"), None);
    let signed = entries(&[
        ("host", "demo.cos.ap-guangzhou.myqcloud.com"),
        ("content-length", "42"),
        ("content-type", "image/png"),
    ]);
    let expected = c.generate_signature_at(1700000000, "PUT", "/assets/pic.png", &signed, &Vec::new());
    assert_eq!(header(&plan.request.headers, "Authorization"), Some(expected.as_str()));
    assert!(expected.contains("q-header-list=content-length;content-type;host&"));
}

#[test]
fn upload_request_with_processing_instruction() {
    let c = CosClient::new(config(None));
    let plan = c.prepare_upload(1700000000, "a.jpg", "a.jpg", 7, &with_pic("{\"rules\":[]}"));
    assert!(plan.processing);
    assert_eq!(header(&plan.request.headers, "Pic-Operations"), Some("{\"rules\":[]}"));
    let auth = header(&plan.request.headers, "Authorization").unwrap();
    assert!(auth.contains("q-header-list=content-length;content-type;host;pic-operations&"));
}

#[test]
fn upload_without_processing_reports_local_size() {
    let c = CosClient::new(config(Some("assets")));
    let step = c.upload_after_put("pic.png", 42, false, 200, &Some("\"etag1\"".to_string()), String::new());
    match step {
        UploadStep::Finished(r) => {
            assert!(r.success);
            assert_eq!(r.key, "pic.png");
            assert_eq!(r.size, 42);
            assert_eq!(r.etag, Some("etag1".to_string()));
            assert_eq!(r.url, "https://demo.cos.ap-guangzhou.myqcloud.com/assets/pic.png");
        }
        _ => panic!("expected a finished upload"),
    }
}

#[test]
fn upload_with_processing_probes_once_and_keeps_key() {
    let c = CosClient::new(config(Some("assets")));
    let step = c.upload_after_put("pic.png", 42, true, 200, &None, String::new());
    let (full_key, etag) = match step {
        UploadStep::Probe { full_key, etag } => (full_key, etag),
        _ => panic!("expected a probe"),
    };
    assert_eq!(full_key, "assets/pic.png");
    assert_eq!(c.get_full_key(&full_key), "assets/pic.png");
    let probe_request = c.prepare_head(1700000000, &full_key);
    assert_eq!(probe_request.method, "HEAD");
    assert_eq!(probe_request.url, "https://demo.cos.ap-guangzhou.myqcloud.com/assets/pic.png");

    let done = c.finish_upload("pic.png", 42, etag.clone(), Some(10));
    assert_eq!(done.key, "pic.png");
    assert_eq!(done.size, 10);
    let fallback = c.finish_upload("pic.png", 42, etag, None);
    assert_eq!(fallback.key, "pic.png");
    assert_eq!(fallback.size, 42);
    assert_eq!(fallback.url, "https://demo.cos.ap-guangzhou.myqcloud.com/assets/pic.png");
}

#[test]
fn upload_failure_carries_status_and_body() {
    let c = CosClient::new(config(None));
    match c.upload_after_put("a", 1, false, 403, &None, "denied".to_string()) {
        UploadStep::Failed(CosError::Status { operation, status, body }) => {
            assert_eq!(operation, Operation::Upload);
            assert_eq!(status, 403);
            assert_eq!(body, "denied");
        }
        _ => panic!("expected a failure"),
    }
}

#[test]
fn head_probe_of_missing_object() {
    let m = head_response(404, &None, &None, &None, &None, String::new()).unwrap();
    assert!(!m.exists);
    assert!(m.size.is_none() && m.etag.is_none() && m.last_modified.is_none() && m.content_type.is_none());
}

#[test]
fn head_probe_of_existing_object() {
    let m = head_response(
        200,
        &Some("1234".to_string()),
        &Some("\"abc\"".to_string()),
        &Some("Wed, 01 Jan 2025 00:00:00 GMT".to_string()),
        &Some("image/webp".to_string()),
        String::new(),
    )
    .unwrap();
    assert!(m.exists);
    assert_eq!(m.size, Some(1234));
    assert_eq!(m.etag, Some("abc".to_string()));
    assert_eq!(m.last_modified, Some("Wed, 01 Jan 2025 00:00:00 GMT".to_string()));
    assert_eq!(m.content_type, Some("image/webp".to_string()));
}

#[test]
fn head_probe_failure() {
    match head_response(500, &None, &None, &None, &None, "oops".to_string()) {
        Err(CosError::Status { operation, status, body }) => {
            assert_eq!(operation, Operation::Head);
            assert_eq!(status, 500);
            assert_eq!(body, "oops");
        }
        _ => panic!("expected a failure"),
    }
}

#[test]
fn object_size_cases() {
    let present = ObjectMetadata { exists: true, size: Some(9), etag: None, last_modified: None, content_type: None };
    assert!(matches!(object_size(&present), Ok(9)));
    let unsized_meta = ObjectMetadata { exists: true, size: None, etag: None, last_modified: None, content_type: None };
    assert!(matches!(object_size(&unsized_meta), Err(CosError::MissingSize)));
    let missing = ObjectMetadata { exists: false, size: None, etag: None, last_modified: None, content_type: None };
    assert!(matches!(object_size(&missing), Err(CosError::NotFound)));
}

#[test]
fn download_outcomes() {
    let c = CosClient::new(config(None));
    let req = c.prepare_download(1700000000, "a.png");
    assert_eq!(req.method, "GET");
    assert_eq!(req.url, "https://demo.cos.ap-guangzhou.myqcloud.com/ImSheet/a.png");
    let d = download_response("/tmp/out", 200, Some(5), String::new()).unwrap();
    assert_eq!((d.success, d.file_path.as_str(), d.size), (true, "/tmp/out", 5));
    assert_eq!(download_response("/tmp/out", 200, None, String::new()).unwrap().size, 0);
    assert!(matches!(
        download_response("/tmp/out", 404, None, "missing".to_string()),
        Err(CosError::Status { operation: Operation::Download, status: 404, .. })
    ));
}

#[test]
fn batch_delete_of_no_keys_sends_nothing() {
    let c = CosClient::new(config(None));
    match c.prepare_delete(1700000000, &Vec::new()) {
        DeletePlan::Done(r) => {
            assert!(r.success);
            assert_eq!(r.deleted_count, 0);
            assert!(r.failed_keys.is_empty());
        }
        DeletePlan::Send(_) => panic!("no request expected"),
    }
}

#[test]
fn batch_delete_request() {
    let c = CosClient::new(config(Some("assets")));
    let keys = vec!["a.png".to_string(), "assets/b.png".to_string()];
    let req = match c.prepare_delete(1700000000, &keys) {
        DeletePlan::Send(r) => r,
        DeletePlan::Done(_) => panic!("a request expected"),
    };
    let body = "<?xml version=\"1.0\" encoding=\"UTF-8\"?>\n<Delete>\n<Quiet>false</Quiet>\n<Object><Key>assets/a.png</Key></Object>\n<Object><Key>assets/b.png</Key></Object>\n</Delete>";
    assert_eq!(req.body, body);
    assert_eq!(req.method, "POST");
    assert_eq!(req.url, "https://demo.cos.ap-guangzhou.myqcloud.com/?delete");
    let md5 = base64::engine::general_purpose::STANDARD.encode(md5::compute(body.as_bytes()).0);
    assert_eq!(header(&req.headers, "Content-MD5"), Some(md5.as_str()));
    assert_eq!(header(&req.headers, "Content-Length"), Some(body.len().to_string().as_str()));
    assert_eq!(header(&req.headers, "Content-Type"), Some("application/xml"));
    let auth = header(&req.headers, "Authorization").unwrap();
    assert!(auth.contains("q-header-list=content-length;content-md5;content-type;host&q-url-param-list=delete&"));
}

#[test]
fn batch_delete_answer() {
    let body = "<DeleteResult><Deleted><Key>a</Key></Deleted><Deleted><Key>b</Key></Deleted><Error><Key>c</Key><Code>AccessDenied</Code></Error></DeleteResult>".to_string();
    let r = delete_response(200, body).unwrap();
    assert!(r.success);
    assert_eq!(r.deleted_count, 2);
    assert_eq!(r.failed_keys, vec!["c".to_string()]);
    assert!(matches!(
        delete_response(400, "bad".to_string()),
        Err(CosError::Status { operation: Operation::Delete, status: 400, .. })
    ));
}

#[test]
fn listing_request_and_answer() {
    let c = CosClient::new(config(Some("d")));
    let req = c.prepare_list(1700000000, &Some("x y".to_string()), Some(10));
    assert_eq!(req.url, "https://demo.cos.ap-guangzhou.myqcloud.com/?prefix=d%2Fx%20y&max-keys=10");
    let auth = header(&req.headers, "Authorization").unwrap();
    assert!(auth.contains("q-url-param-list=max-keys;prefix&"));
    let plain = c.prepare_list(1700000000, &None, None);
    assert_eq!(plain.url, "https://demo.cos.ap-guangzhou.myqcloud.com/");
    let page = list_response(200, "<ListBucketResult/>".to_string()).unwrap();
    assert!(page.objects.is_empty() && !page.is_truncated && page.next_marker.is_none());
    let body = "<ListBucketResult><Name>demo</Name><IsTruncated>true</IsTruncated><NextMarker>d/b.png</NextMarker>\
<Contents><Key>d/a.png</Key><LastModified>2025-01-01T00:00:00.000Z</LastModified><ETag>\"e1\"</ETag><Size>120</Size></Contents>\
<Contents><Key>d/b.png</Key><LastModified>2025-01-02T00:00:00.000Z</LastModified><ETag>\"e2\"</ETag><Size>x</Size></Contents>\
</ListBucketResult>";
    let page = list_response(200, body.to_string()).unwrap();
    assert!(page.is_truncated);
    assert_eq!(page.next_marker, Some("d/b.png".to_string()));
    assert_eq!(page.objects.len(), 2);
    assert_eq!(page.objects[0].key, "d/a.png");
    assert_eq!(page.objects[0].size, 120);
    assert_eq!(page.objects[0].etag, "e1");
    assert_eq!(page.objects[0].last_modified, "2025-01-01T00:00:00.000Z");
    assert_eq!(page.objects[1].key, "d/b.png");
    assert_eq!(page.objects[1].size, 0);
    let done = list_response(200, "<IsTruncated>false</IsTruncated><NextMarker></NextMarker>".to_string()).unwrap();
    assert!(!done.is_truncated && done.next_marker.is_none());
    assert!(matches!(list_response(403, String::new()), Err(CosError::Status { operation: Operation::List, .. })));
}

#[test]
fn end_to_end_upload_scenario() {
    let c = CosClient::new(config(Some("assets")));
    let plan = c.prepare_upload(1700000000, "/home/u/pic.png", "pic.png", 3, &None);
    assert_eq!(plan.full_key, "assets/pic.png");
    match c.upload_after_put("pic.png", 3, plan.processing, 200, &None, String::new()) {
        UploadStep::Finished(r) => {
            assert_eq!(r.key, "pic.png");
            assert_eq!(r.url, "https://demo.cos.ap-guangzhou.myqcloud.com/assets/pic.png");
            assert_eq!(r.size, 3);
        }
        _ => panic!("expected a finished upload"),
    }
}

#[test]
fn etag_header_trimmed() {
    assert_eq!(trim_etag(&Some("\"x\"".to_string())), Some("x".to_string()));
    assert_eq!(trim_etag(&None), None);
}

#[test]
fn payload_decoding() {
    assert_eq!(decode_payload("aGVsbG8=").unwrap(), b"hello".to_vec());
    assert!(matches!(decode_payload("!!not base64"), Err(CosError::InvalidPayload)));
}
