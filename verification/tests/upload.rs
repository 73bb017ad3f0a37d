use linkedin_api::client::LinkedInClient;
use linkedin_api::error::Error;
use linkedin_api::json::{Json, ObjectBuilder};
use linkedin_api::request::{Body, Header, HttpRequest, Method};
use linkedin_api::upload::{
    upload_value, MediaFile, MediaWait, MultipartUpload, ReplyHeader, SingleUpload, UploadPlan,
    WaitStep, MULTIPART_THRESHOLD, POLL_INTERVAL_SECS,
};

fn client() -> LinkedInClient {
    LinkedInClient {
        base_url: "https://www.linkedin.com".to_string(),
        api_prefix: "/voyager/api/".to_string(),
        jsessionid: "ajax:1".to_string(),
    }
}

fn file(name: &str) -> MediaFile {
    client().upload_media("/tmp/x", true, Some(name)).unwrap()
}

fn invalid(message: &str) -> Error {
    Error::InvalidInput(message.to_string())
}

fn octets() -> Header {
    Header::new("content-type", "application/octet-stream")
}

fn single(value: Json, bytes: Vec<u8>) -> SingleUpload {
    match file("a.png").plan(value, bytes).unwrap() {
        UploadPlan::Single(upload) => upload,
        UploadPlan::Multipart(_) => panic!("not an upload in one piece"),
    }
}

fn multipart(value: Json, bytes: Vec<u8>) -> MultipartUpload {
    match file("a.gif").plan(value, bytes).unwrap() {
        UploadPlan::Multipart(upload) => upload,
        UploadPlan::Single(_) => panic!("not an upload in parts"),
    }
}

fn parts(parts: Vec<Json>) -> Json {
    ObjectBuilder::new()
        .field("urn", Json::text("urn:li:digitalmediaAsset:1"))
        .field("multipartMetadata", Json::text("meta"))
        .field("partUploadRequests", Json::array(parts))
        .build()
}

fn numbered_part(url: &str, first: u64, last: u64) -> Json {
    ObjectBuilder::new()
        .field("uploadUrl", Json::text(url))
        .field("firstByte", Json::Unsigned(first))
        .field("lastByte", Json::Unsigned(last))
        .build()
}

#[test]
fn only_media_files_are_accepted() {
    assert_eq!(
        file("Photo.JPEG"),
        MediaFile {
            filename: "Photo.JPEG".to_string(),
            upload_type: "IMAGE_SHARING",
            content_type: "image/jpeg",
        }
    );
    assert_eq!(
        client().upload_media("/tmp/x.png", false, Some("x.png")).unwrap_err(),
        invalid("media file does not exist: /tmp/x.png")
    );
    assert_eq!(
        client().upload_media("/tmp/..", true, None).unwrap_err(),
        invalid("media path has no valid filename")
    );
    assert_eq!(
        client().upload_media("/tmp/x.txt", true, Some("x.txt")).unwrap_err(),
        invalid("unsupported LinkedIn media type for 'x.txt'")
    );
}

#[test]
fn upload_is_announced_with_its_size() {
    let request = file("clip.mov").metadata_request(&Ok(vec![1, 2, 3])).unwrap();
    assert_eq!(request.path, "voyagerMediaUploadMetadata?action=upload");
    let expected = ObjectBuilder::new()
        .field("mediaUploadType", Json::text("VIDEO_SHARING"))
        .field("fileSize", Json::Unsigned(3))
        .field("hasOverlayImage", Json::Bool(false))
        .field("uploadMetadataType", Json::text("SINGLE"))
        .field("filename", Json::text("clip.mov"))
        .build();
    assert_eq!(request.body, expected);
    assert_eq!(
        file("clip.mov").metadata_request(&Err("no such file".to_string())).unwrap_err(),
        invalid("failed to read media file: no such file")
    );
}

#[test]
fn only_large_images_go_in_parts() {
    let kind = |name: &str, size: usize| {
        let request = file(name).metadata_request(&Ok(vec![0; size])).unwrap();
        request.body.text_at("uploadMetadataType").unwrap().to_string()
    };
    assert_eq!(MULTIPART_THRESHOLD, 1_000_000);
    assert_eq!(kind("a.gif", 1_000_000), "SINGLE");
    assert_eq!(kind("a.gif", 1_000_001), "MULTIPART");
    assert_eq!(kind("a.mp4", 1_000_001), "SINGLE");
    assert_eq!(kind("a.pdf", 1_000_001), "SINGLE");
}

#[test]
fn metadata_without_a_value_are_refused() {
    let meta = ObjectBuilder::new().field("value", Json::Bool(true)).build();
    assert_eq!(upload_value(&meta), Ok(Json::Bool(true)));
    assert_eq!(
        upload_value(&Json::Null),
        Err(Error::Api {
            status: 200,
            body: "missing upload metadata value: null".to_string(),
            correlation_id: None,
        })
    );
}

#[test]
fn upload_without_an_address_is_refused() {
    let value = ObjectBuilder::new().field("partUploadRequests", Json::array(vec![])).build();
    assert_eq!(
        file("a.png").plan(value, vec![]),
        Err(Error::Api {
            status: 200,
            body: "missing singleUploadUrl: {\"partUploadRequests\":[]}".to_string(),
            correlation_id: None,
        })
    );
}

#[test]
fn upload_without_a_name_is_refused() {
    let missing = |text: &str| {
        Err(Error::Api {
            status: 200,
            body: format!("missing urn: {text}"),
            correlation_id: None,
        })
    };
    let single =
        ObjectBuilder::new().field("singleUploadUrl", Json::text("https://cdn/1")).build();
    assert_eq!(
        file("a.png").plan(single.copy(), vec![1]),
        missing("{\"singleUploadUrl\":\"https://cdn/1\"}")
    );
    let in_parts = ObjectBuilder::new()
        .field("partUploadRequests", Json::array(vec![numbered_part("https://cdn/1", 0, 0)]))
        .build();
    assert_eq!(
        file("a.gif").plan(in_parts, vec![1]),
        missing(
            "{\"partUploadRequests\":[{\"firstByte\":0,\"lastByte\":0,\"uploadUrl\":\"https://cdn/1\"}]}"
        )
    );
    // Only a string names the media.
    let numbered = single.with("urn", Json::Unsigned(1));
    assert_eq!(
        file("a.png").plan(numbered.copy(), vec![1]),
        missing("{\"singleUploadUrl\":\"https://cdn/1\",\"urn\":1}")
    );
    let named = numbered.with("urn", Json::text("urn:li:digitalmediaAsset:1"));
    assert!(file("a.png").plan(named, vec![1]).is_ok());
}

#[test]
fn single_upload_sends_the_bytes_with_the_listed_headers() {
    let headers = ObjectBuilder::new()
        .field("x-b", Json::text("0"))
        .field("x-hidden", Json::text("2"))
        .field("x-a", Json::text("1"))
        .field("x-hidden", Json::Unsigned(2))
        .field("x-b", Json::text("3"))
        .build();
    let value = ObjectBuilder::new()
        .field("urn", Json::text("urn:li:digitalmediaAsset:1"))
        .field("singleUploadUrl", Json::text("https://cdn/1"))
        .field("singleUploadHeaders", headers)
        .build();
    let upload = single(value, vec![7, 8]);
    assert_eq!(
        upload.request(),
        HttpRequest {
            method: Method::Put,
            url: "https://cdn/1".to_string(),
            headers: vec![octets(), Header::new("x-a", "1"), Header::new("x-b", "3")],
            body: Body::Bytes(vec![7, 8]),
        }
    );
}

#[test]
fn single_upload_adds_to_the_metadata() {
    let value = || {
        ObjectBuilder::new()
            .field("content_type", Json::text("stale"))
            .field("singleUploadUrl", Json::text("https://cdn/1"))
            .field("urn", Json::text("urn:li:digitalmediaAsset:1"))
            .build()
    };
    let expected = ObjectBuilder::new()
        .field("content_type", Json::text("image/png"))
        .field("singleUploadUrl", Json::text("https://cdn/1"))
        .field("urn", Json::text("urn:li:digitalmediaAsset:1"))
        .field("media_upload_type", Json::text("IMAGE_SHARING"))
        .field("singleUploadStatus", Json::Unsigned(201))
        .build();
    assert_eq!(single(value(), vec![1]).reply(201, ""), Ok(expected));
    assert_eq!(
        single(value(), vec![1, 2]).reply(403, "denied"),
        Err(Error::Api {
            status: 403,
            body: "CDN single-upload failed (2 bytes, status 403): denied".to_string(),
            correlation_id: None,
        })
    );
}

#[test]
fn uploaded_media_can_be_waited_for_and_shared() {
    let value = ObjectBuilder::new()
        .field("singleUploadUrl", Json::text("https://cdn/1"))
        .field("urn", Json::text("urn:li:digitalmediaAsset:1"))
        .build();
    let media = single(value, vec![1]).reply(200, "").unwrap();
    assert!(client().wait_media_ready(|s: &str| s.to_string(), &media).is_ok());
    let report = ObjectBuilder::new().field("ok", Json::Bool(true)).build();
    assert!(client()
        .schedule_post_with_media("hi", "anyone", 1, &media, None, &report)
        .is_ok());
}

#[test]
fn parts_send_the_file_whole() {
    let ranged = ObjectBuilder::new()
        .field("partUploadUrl", Json::text("https://cdn/2"))
        .field("byteRange", Json::text("bytes 3-99"))
        .field(
            "partUploadHeaders",
            ObjectBuilder::new().field("x-part", Json::text("2")).build(),
        )
        .build();
    let mut upload =
        multipart(parts(vec![numbered_part("https://cdn/1", 0, 2), ranged]), vec![1, 2, 3, 4, 5]);
    assert!(upload.due());
    assert!(upload.part_fits());
    assert_eq!(
        upload.part_request().unwrap(),
        HttpRequest {
            method: Method::Put,
            url: "https://cdn/1".to_string(),
            headers: vec![octets()],
            body: Body::Bytes(vec![1, 2, 3]),
        }
    );
    assert_eq!(upload.part_reply(200, &vec![], "one"), Ok(()));
    assert!(upload.due());
    assert_eq!(
        upload.part_request().unwrap(),
        HttpRequest {
            method: Method::Put,
            url: "https://cdn/2".to_string(),
            headers: vec![octets(), Header::new("x-part", "2")],
            body: Body::Bytes(vec![4, 5]),
        }
    );
    let headers = vec![
        ReplyHeader { name: "etag".to_string(), value: Some("a".to_string()) },
        ReplyHeader { name: "binary".to_string(), value: None },
        ReplyHeader { name: "date".to_string(), value: Some("now".to_string()) },
        ReplyHeader { name: "etag".to_string(), value: Some("b".to_string()) },
    ];
    assert_eq!(upload.part_reply(200, &headers, ""), Ok(()));
    assert!(!upload.due());

    let request = upload.completion_request();
    assert_eq!(request.path, "voyagerMediaUploadMetadata?action=completeMultipartUpload");
    let first = ObjectBuilder::new()
        .field("httpStatusCode", Json::Unsigned(200))
        .field("headers", ObjectBuilder::new().build())
        .field("body", Json::text("one"))
        .build();
    let kept = ObjectBuilder::new()
        .field("etag", Json::text("b"))
        .field("date", Json::text("now"))
        .build();
    let second = ObjectBuilder::new()
        .field("httpStatusCode", Json::Unsigned(200))
        .field("headers", kept)
        .field("body", Json::text(""))
        .build();
    let inner = ObjectBuilder::new()
        .field("uploadMetadataType", Json::text("MULTIPART"))
        .field("multipartMetadata", Json::text("meta"))
        .field("mediaArtifactUrn", Json::text(""))
        .field("partUploadResponses", Json::array(vec![first, second]))
        .build();
    assert_eq!(request.body, ObjectBuilder::new().field("completeUploadRequest", inner).build());

    let media = upload.completed();
    assert_eq!(media.text_at("urn"), Some("urn:li:digitalmediaAsset:1"));
    assert_eq!(media.text_at("media_upload_type"), Some("IMAGE_SHARING"));
    assert_eq!(media.text_at("content_type"), Some("image/gif"));
    assert_eq!(media.get("multipartCompleted"), Some(&Json::Bool(true)));
}

#[test]
fn part_that_is_not_taken_ends_the_upload() {
    let mut upload = multipart(parts(vec![numbered_part("https://cdn/1", 0, 0)]), vec![1]);
    // Only 200 counts, not any success.
    assert_eq!(
        upload.part_reply(201, &vec![], "made"),
        Err(Error::Api {
            status: 201,
            body: "CDN part 0 upload failed (status 201): made".to_string(),
            correlation_id: None,
        })
    );
    assert!(upload.due());
}

#[test]
fn part_needs_an_address() {
    let nowhere = ObjectBuilder::new().field("firstByte", Json::Unsigned(0)).build();
    let mut upload = multipart(
        parts(vec![numbered_part("https://cdn/1", 0, 0), nowhere]),
        vec![1],
    );
    upload.part_reply(200, &vec![], "").unwrap();
    assert!(upload.part_fits());
    assert_eq!(
        upload.part_request(),
        Err(Error::Api {
            status: 200,
            body: "part 1 missing uploadUrl/partUploadUrl: {\"firstByte\":0}".to_string(),
            correlation_id: None,
        })
    );
    // An address that is no string hides the other one.
    let hidden = ObjectBuilder::new()
        .field("uploadUrl", Json::Null)
        .field("partUploadUrl", Json::text("https://cdn/1"))
        .build();
    assert!(multipart(parts(vec![hidden]), vec![1]).part_request().is_err());
}

#[test]
fn part_without_a_range_is_the_whole_file() {
    let part = ObjectBuilder::new()
        .field("uploadUrl", Json::text("https://cdn/1"))
        .field("firstByte", Json::Unsigned(1))
        .build();
    let upload = multipart(parts(vec![part]), vec![5, 6]);
    assert!(upload.part_fits());
    assert_eq!(upload.part_request().unwrap().body, Body::Bytes(vec![5, 6]));
    let bad = ObjectBuilder::new()
        .field("uploadUrl", Json::text("https://cdn/1"))
        .field("byteRange", Json::text("all"))
        .build();
    let upload = multipart(parts(vec![bad]), vec![5, 6]);
    assert!(upload.part_fits());
    assert_eq!(
        upload.part_request().unwrap_err(),
        invalid("invalid byte range 'all', expected 'start-end'")
    );
}

#[test]
fn parts_outside_the_file_do_not_fit() {
    let fits = |first: u64, last: u64| {
        multipart(parts(vec![numbered_part("u", first, last)]), vec![1, 2, 3]).part_fits()
    };
    assert!(fits(0, 2));
    assert!(fits(3, 2));
    assert!(!fits(0, 3));
    assert!(!fits(4, 2));
    assert!(!fits(2, 0));
    assert!(!fits(0, u64::MAX));
}

fn wait_for(upload_type: &str) -> MediaWait {
    let media = ObjectBuilder::new()
        .field("urn", Json::text("urn:li:a"))
        .field("media_upload_type", Json::text(upload_type))
        .build();
    client().wait_media_ready(|s: &str| s.replace(':', "%3A"), &media).unwrap()
}

fn status(name: &str) -> Json {
    ObjectBuilder::new().field("processingStatus", Json::text(name)).build()
}

#[test]
fn wait_asks_by_the_kind_of_media() {
    let path = |kind: &str| {
        WaitStep::Get(format!("voyagerVideoDashMediaAssetStatus/urn%3Ali%3Aa?mediaStatusType={kind}"))
    };
    assert_eq!(wait_for("VIDEO_SHARING").next(false, 5), path("VIDEO"));
    assert_eq!(wait_for("DOCUMENT_SHARING").next(false, 5), path("DOCUMENT_PREVIEW"));
    assert_eq!(wait_for("IMAGE_SHARING").next(false, 5), path("IMAGE"));
    assert_eq!(wait_for("else").next(false, 5), path("IMAGE"));
    assert_eq!(POLL_INTERVAL_SECS, 2);
}

#[test]
fn wait_needs_the_name_and_type_of_the_media() {
    let encode = |s: &str| s.to_string();
    assert_eq!(
        client().wait_media_ready(encode, &Json::Null).unwrap_err(),
        invalid("media metadata missing urn")
    );
    let untyped = ObjectBuilder::new().field("urn", Json::text("u")).build();
    assert_eq!(
        client().wait_media_ready(encode, &untyped).unwrap_err(),
        invalid("media metadata missing media_upload_type")
    );
}

fn report(ok: bool, last: Json) -> Json {
    ObjectBuilder::new()
        .field("ok", Json::Bool(ok))
        .field("mediaStatusType", Json::text("VIDEO"))
        .field("last", last)
        .build()
}

#[test]
fn wait_ends_with_a_verdict() {
    let mut wait = wait_for("VIDEO_SHARING");
    assert_eq!(wait.observe(Some(&status("PROCESSING"))), None);
    assert_eq!(wait.observe(None), None);
    assert_eq!(wait.observe(Some(&status("READY"))), Some(report(true, status("READY"))));
    assert_eq!(wait.observe(Some(&status("FAILED"))), Some(report(false, status("FAILED"))));
    assert_eq!(
        wait.observe(Some(&status("PROCESSING_FAILED"))),
        Some(report(false, status("PROCESSING_FAILED")))
    );
    let document =
        || status("FAILED").with("documentProcessingResult", Json::Null);
    assert_eq!(wait.observe(Some(&document())), Some(report(true, document())));
}

#[test]
fn wait_that_takes_too_long_reports_the_last_state() {
    let mut wait = wait_for("VIDEO_SHARING");
    let expired = |last: Json| {
        WaitStep::Report(
            ObjectBuilder::new()
                .field("ok", Json::Bool(false))
                .field("mediaStatusType", Json::text("VIDEO"))
                .field("timeout_secs", Json::Unsigned(9))
                .field("last", last)
                .build(),
        )
    };
    assert_eq!(wait.next(true, 9), expired(Json::Null));
    wait.observe(Some(&status("PROCESSING")));
    wait.observe(None);
    assert_eq!(wait.next(true, 9), expired(status("PROCESSING")));
}
