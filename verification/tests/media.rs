use linkedin_api::error::Error;
use linkedin_api::json::{Json, ObjectBuilder};
use linkedin_api::media::{
    media_payload_from_upload, media_status_type, media_upload_type, parse_byte_range,
};

fn invalid(message: &str) -> Error {
    Error::InvalidInput(message.to_string())
}

fn media(upload_type: &str) -> ObjectBuilder {
    ObjectBuilder::new()
        .field("urn", Json::text("urn:li:a"))
        .field("media_upload_type", Json::text(upload_type))
}

fn texts(list: &[&str]) -> Json {
    Json::array(list.iter().map(|s| Json::text(s)).collect())
}

#[test]
fn media_upload_type_maps_supported_extensions() {
    assert_eq!(media_upload_type("photo.png").unwrap(), ("IMAGE_SHARING", "image/png"));
    assert_eq!(media_upload_type("photo.jpg").unwrap(), ("IMAGE_SHARING", "image/jpeg"));
    assert_eq!(media_upload_type("anim.gif").unwrap(), ("IMAGE_SHARING", "image/gif"));
    assert_eq!(media_upload_type("clip.mp4").unwrap(), ("VIDEO_SHARING", "video/mp4"));
    assert_eq!(media_upload_type("doc.pdf").unwrap(), ("DOCUMENT_SHARING", "application/pdf"));
    assert!(media_upload_type("data.csv").is_err());
}

#[test]
fn other_extensions_have_their_types() {
    assert_eq!(media_upload_type("a.jpeg").unwrap(), ("IMAGE_SHARING", "image/jpeg"));
    assert_eq!(media_upload_type("a.webp").unwrap(), ("IMAGE_SHARING", "image/webp"));
    assert_eq!(media_upload_type("a.mov").unwrap(), ("VIDEO_SHARING", "video/quicktime"));
    assert_eq!(media_upload_type("a.m4v").unwrap(), ("VIDEO_SHARING", "video/x-m4v"));
    assert_eq!(media_upload_type("a.webm").unwrap(), ("VIDEO_SHARING", "video/webm"));
}

#[test]
fn extension_is_what_follows_the_last_dot() {
    assert_eq!(media_upload_type("a.pdf.PNG").unwrap(), ("IMAGE_SHARING", "image/png"));
    assert_eq!(media_upload_type("GIF").unwrap(), ("IMAGE_SHARING", "image/gif"));
    assert_eq!(
        media_upload_type("png.").unwrap_err(),
        invalid("unsupported LinkedIn media type for 'png.'")
    );
    assert!(media_upload_type("").is_err());
}

#[test]
fn parse_byte_range_parses_valid_ranges() {
    assert_eq!(parse_byte_range("bytes 0-4194303", 8_000_000).unwrap(), (0, 4194303));
    assert_eq!(parse_byte_range("0-99", 100).unwrap(), (0, 99));
    assert_eq!(parse_byte_range("", 100).unwrap(), (0, 99));
    // End clamped to total - 1
    assert_eq!(parse_byte_range("0-200", 100).unwrap(), (0, 99));
}

#[test]
fn parse_byte_range_keeps_to_its_form() {
    assert_eq!(parse_byte_range("", 0).unwrap(), (0, 0));
    assert_eq!(parse_byte_range("7-9", 0).unwrap(), (7, 0));
    assert_eq!(parse_byte_range("+7-+9", 100).unwrap(), (7, 9));
    assert_eq!(parse_byte_range("007-9", 100).unwrap(), (7, 9));
    assert_eq!(
        parse_byte_range("18446744073709551615-18446744073709551615", 5).unwrap(),
        (18446744073709551615, 4)
    );
}

#[test]
fn parse_byte_range_rejects_other_text() {
    for range in ["5", "1-2-3", "bytes ", "bytes bytes"] {
        assert_eq!(
            parse_byte_range(range, 100).unwrap_err(),
            invalid(&format!("invalid byte range '{range}', expected 'start-end'"))
        );
    }
    assert_eq!(
        parse_byte_range("a-2", 100).unwrap_err(),
        invalid("invalid byte range start 'a'")
    );
    assert_eq!(
        parse_byte_range("-", 100).unwrap_err(),
        invalid("invalid byte range start ''")
    );
    assert_eq!(
        parse_byte_range("bytes 1-+", 100).unwrap_err(),
        invalid("invalid byte range end '+'")
    );
    assert_eq!(
        parse_byte_range("0-18446744073709551616", 100).unwrap_err(),
        invalid("invalid byte range end '18446744073709551616'")
    );
    assert_eq!(
        parse_byte_range("0- 1", 100).unwrap_err(),
        invalid("invalid byte range end ' 1'")
    );
}

#[test]
fn byte_range_reads_back() {
    for (first, last) in [(0usize, 0usize), (10, 4194303), (123456789, 987654321)] {
        let total = 1_000_000_000;
        assert_eq!(parse_byte_range(&format!("{first}-{last}"), total).unwrap(), (first, last));
        assert_eq!(
            parse_byte_range(&format!("bytes {first}-{last}"), total).unwrap(),
            (first, last)
        );
    }
}

#[test]
fn total_only_cuts_ranges_back() {
    assert_eq!(parse_byte_range("bytes 2-9", 100).unwrap(), (2, 9));
    assert_eq!(parse_byte_range("bytes 2-9", 5).unwrap(), (2, 4));
    assert_eq!(parse_byte_range("2-x", 100), parse_byte_range("2-x", 5));
}

#[test]
fn status_type_fits_content_type() {
    for (name, status_type) in [("a.gif", "IMAGE"), ("a.mov", "VIDEO")] {
        let (upload_type, content_type) = media_upload_type(name).unwrap();
        assert_eq!(media_status_type(upload_type), status_type);
        assert!(content_type.starts_with(&status_type.to_lowercase()));
    }
    let (upload_type, content_type) = media_upload_type("a.pdf").unwrap();
    assert_eq!(media_status_type(upload_type), "DOCUMENT_PREVIEW");
    assert_eq!(content_type, "application/pdf");
}

#[test]
fn status_type_goes_by_upload_type() {
    assert_eq!(media_status_type("DOCUMENT_SHARING"), "DOCUMENT_PREVIEW");
    assert_eq!(media_status_type("VIDEO_SHARING"), "VIDEO");
    assert_eq!(media_status_type("IMAGE_SHARING"), "IMAGE");
    assert_eq!(media_status_type("anything"), "IMAGE");
}

#[test]
fn video_payload_has_default_recipes() {
    let expected = ObjectBuilder::new()
        .field("category", Json::text("VIDEO"))
        .field("mediaUrn", Json::text("urn:li:a"))
        .field(
            "recipes",
            texts(&[
                "urn:li:digitalmediaRecipe:feedshare-video-captions-thumbnails-ambry",
                "urn:li:digitalmediaRecipe:feedshare-video-auto-caption-public",
            ]),
        )
        .field("nativeMediaSource", Json::text("PRE_RECORDED"))
        .build();
    let payload = media_payload_from_upload(&media("VIDEO_SHARING").build(), Some("title"));
    assert_eq!(payload, Ok(expected));
}

#[test]
fn document_payload_carries_the_title() {
    let untitled = ObjectBuilder::new()
        .field("category", Json::text("NATIVE_DOCUMENT"))
        .field("mediaUrn", Json::text("urn:li:a"))
        .field(
            "recipes",
            texts(&[
                "urn:li:digitalmediaRecipe:feedshare-document-preview",
                "urn:li:digitalmediaRecipe:feedshare-document",
            ]),
        )
        .build();
    let upload = media("DOCUMENT_SHARING").build();
    assert_eq!(media_payload_from_upload(&upload, None), Ok(untitled.copy()));
    assert_eq!(
        media_payload_from_upload(&upload, Some("Report")),
        Ok(untitled.with("title", Json::text("Report")))
    );
}

#[test]
fn image_payload_keeps_the_recipes_of_the_upload() {
    let image = |recipes: Json| {
        ObjectBuilder::new()
            .field("category", Json::text("IMAGE"))
            .field("mediaUrn", Json::text("urn:li:a"))
            .field("recipes", recipes)
            .build()
    };
    assert_eq!(
        media_payload_from_upload(&media("IMAGE_SHARING").build(), Some("title")),
        Ok(image(texts(&["urn:li:digitalmediaRecipe:feedshare-image"])))
    );
    let own = media("IMAGE_SHARING").field("recipes", Json::Null).build();
    assert_eq!(media_payload_from_upload(&own, None), Ok(image(Json::Null)));
}

#[test]
fn payload_needs_type_and_urn() {
    let payload = |media: Json| media_payload_from_upload(&media, None).unwrap_err();
    assert_eq!(payload(Json::Null), invalid("media metadata missing media_upload_type"));
    assert_eq!(
        payload(ObjectBuilder::new().field("media_upload_type", Json::text("X")).build()),
        invalid("media metadata missing urn")
    );
    assert_eq!(payload(media("X").build()), invalid("unsupported media_upload_type 'X'"));
}
