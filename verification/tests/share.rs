use linkedin_api::client::LinkedInClient;
use linkedin_api::error::Error;
use linkedin_api::json::{Json, ObjectBuilder};
use linkedin_api::request::{Body, Header, HttpRequest, Method};
use linkedin_api::share::{build_share_body, ready_wait_secs, share_body_from};

fn client() -> LinkedInClient {
    LinkedInClient {
        base_url: "https://www.linkedin.com".to_string(),
        api_prefix: "/voyager/api/".to_string(),
        jsessionid: "ajax:1".to_string(),
    }
}

fn post_of(body: &Json) -> &Json {
    body.get("variables").unwrap().get("post").unwrap()
}

fn image() -> Json {
    ObjectBuilder::new()
        .field("urn", Json::text("urn:li:digitalmediaAsset:1"))
        .field("media_upload_type", Json::text("IMAGE_SHARING"))
        .build()
}

fn ready(ok: Json) -> Json {
    ObjectBuilder::new().field("ok", ok).build()
}

#[test]
fn build_share_body_requires_scheduled_at_for_scheduled() {
    let err = build_share_body("text", "ANYONE", "SCHEDULED", None, None).unwrap_err();
    assert!(err.message().contains("scheduled_at_ms"));
}

#[test]
fn build_share_body_rejects_bad_visibility() {
    let err = build_share_body("text", "PRIVATE", "PUBLISHED", None, None).unwrap_err();
    assert!(err.message().contains("visibility"));
}

#[test]
fn build_share_body_builds_scheduled_payload() {
    let body =
        build_share_body("hello", "ANYONE", "SCHEDULED", Some(1700000000000i64), None).unwrap();
    let post = post_of(&body);
    assert_eq!(post.text_at("intendedShareLifeCycleState"), Some("SCHEDULED"));
    assert_eq!(post.get("scheduledAt"), Some(&Json::integer(1700000000000i64)));
}

#[test]
fn share_body_is_complete() {
    let body = build_share_body("hello", "connections_only", "published", Some(5), None).unwrap();
    let commentary = ObjectBuilder::new()
        .field("text", Json::text("hello"))
        .field("attributesV2", Json::array(vec![]))
        .build();
    let visibility =
        ObjectBuilder::new().field("visibilityType", Json::text("CONNECTIONS_ONLY")).build();
    let post = ObjectBuilder::new()
        .field("allowedCommentersScope", Json::text("ALL"))
        .field("intendedShareLifeCycleState", Json::text("PUBLISHED"))
        .field("origin", Json::text("FEED"))
        .field("visibilityDataUnion", visibility)
        .field("commentary", commentary)
        .build();
    let expected = ObjectBuilder::new()
        .field("variables", ObjectBuilder::new().field("post", post).build())
        .field(
            "queryId",
            Json::text("voyagerContentcreationDashShares.279996efa5064c01775d5aff003d9377"),
        )
        .field("includeWebMetadata", Json::Bool(true))
        .build();
    // A published share has no time, though one was given.
    assert_eq!(body, expected);
}

#[test]
fn share_errors_say_what_is_wrong() {
    assert_eq!(
        build_share_body("t", "me", "nowhere", None, None).unwrap_err(),
        Error::InvalidInput(
            "invalid visibility 'me'. Must be ANYONE or CONNECTIONS_ONLY".to_string()
        )
    );
    assert_eq!(
        build_share_body("t", "anyone", "Draft", None, None).unwrap_err(),
        Error::InvalidInput(
            "invalid lifecycle_state 'Draft'. Must be PUBLISHED or SCHEDULED".to_string()
        )
    );
    assert_eq!(
        build_share_body("t", "anyone", "scheduled", None, None).unwrap_err(),
        Error::InvalidInput("scheduled_at_ms is required for SCHEDULED shares".to_string())
    );
    assert_eq!(
        build_share_body("t", "anyone", "published", None, Some((&Json::Null, None))).unwrap_err(),
        Error::InvalidInput("media metadata missing media_upload_type".to_string())
    );
}

#[test]
fn share_body_takes_the_capital_forms_as_given() {
    let body = share_body_from("t", "a", "ANYONE", "b", "SCHEDULED", Some(-7), None).unwrap();
    assert_eq!(post_of(&body).get("scheduledAt"), Some(&Json::Signed(-7)));
    assert!(share_body_from("t", "ANYONE", "anyone", "b", "SCHEDULED", Some(1), None).is_err());
    assert!(share_body_from("t", "ANYONE", "ANYONE", "b", "scheduled", Some(1), None).is_err());
}

#[test]
fn post_is_sent_to_the_address_of_its_query() {
    let request = client().create_post("hi", "anyone").unwrap();
    let expected = HttpRequest {
        method: Method::Post,
        url: "https://www.linkedin.com/voyager/api/graphql?action=execute&queryId=voyagerContentcreationDashShares.279996efa5064c01775d5aff003d9377"
            .to_string(),
        headers: vec![
            Header::new("Csrf-Token", "ajax:1"),
            Header::new("x-li-graphql-pegasus-client", "true"),
        ],
        body: Body::Json(build_share_body("hi", "ANYONE", "PUBLISHED", None, None).unwrap()),
    };
    assert_eq!(request, expected);
    assert!(client().create_post("hi", "nobody").is_err());
}

#[test]
fn scheduled_post_carries_its_time() {
    let request = client().schedule_post("hi", "anyone", 12).unwrap();
    let body = build_share_body("hi", "ANYONE", "SCHEDULED", Some(12), None).unwrap();
    assert_eq!(request.body, Body::Json(body));
    assert!(client().schedule_post("hi", "nobody", 12).is_err());
}

#[test]
fn media_post_is_sent_once_the_media_are_ready() {
    let request = client()
        .schedule_post_with_media("hi", "anyone", 12, &image(), Some("t"), &ready(Json::Bool(true)))
        .unwrap();
    let media = image();
    let body =
        build_share_body("hi", "ANYONE", "SCHEDULED", Some(12), Some((&media, Some("t")))).unwrap();
    assert_eq!(
        post_of(&body).get("media").unwrap().text_at("mediaUrn"),
        Some("urn:li:digitalmediaAsset:1")
    );
    assert_eq!(request.body, Body::Json(body));
}

#[test]
fn media_post_is_refused_while_the_media_are_not_ready() {
    let reports = [
        (ready(Json::Bool(false)), "{\"ok\":false}"),
        (ready(Json::text("true")), "{\"ok\":\"true\"}"),
        (Json::Null, "null"),
    ];
    for (report, text) in reports {
        let error = client()
            .schedule_post_with_media("hi", "anyone", 12, &image(), None, &report)
            .unwrap_err();
        assert_eq!(
            error,
            Error::Api {
                status: 408,
                body: format!("media did not become READY: {text}"),
                correlation_id: None,
            }
        );
    }
}

#[test]
fn wait_lasts_at_least_a_second() {
    assert_eq!(ready_wait_secs(0), 1);
    assert_eq!(ready_wait_secs(1), 1);
    assert_eq!(ready_wait_secs(90), 90);
}

#[test]
fn share_is_read_by_its_name_with_or_without_prefix() {
    let encode = |s: &str| s.replace(':', "%3A");
    let expected = "variables=(shareUrns:List(urn%3Ali%3Ashare%3A1))&queryId=voyagerContentcreationDashShares.b6c8295dc377a63224101ecce6d3c1ca";
    assert_eq!(client().get_share(encode, "urn:li:share:1"), expected);
    assert_eq!(client().get_share(encode, "urn:li:fsd_share:urn:li:share:1"), expected);
}

#[test]
fn share_is_deleted_by_its_name() {
    let encode = |s: &str| s.replace(':', "%3A");
    let (deletion, request) = client().delete_share(encode, "urn:li:fsd_share:urn:li:share:1");
    assert_eq!(deletion.key, "urn:li:share:1");
    assert_eq!(
        request,
        HttpRequest {
            method: Method::Delete,
            url: "https://www.linkedin.com/voyager/api/contentcreation/normShares/urn%3Ali%3Ashare%3A1"
                .to_string(),
            headers: vec![Header::new("Csrf-Token", "ajax:1")],
            body: Body::Empty,
        }
    );
    let expected = ObjectBuilder::new()
        .field("status_code", Json::Unsigned(204))
        .field("share_urn", Json::text("urn:li:share:1"))
        .build();
    assert_eq!(deletion.reply(204, "ignored".to_string()), Ok(expected));
    assert_eq!(
        deletion.reply(300, "gone".to_string()),
        Err(Error::Api {
            status: 300,
            body: "gone".to_string(),
            correlation_id: None,
        })
    );
    assert!(deletion.reply(299, String::new()).is_ok());
    assert!(deletion.reply(199, String::new()).is_err());
}
