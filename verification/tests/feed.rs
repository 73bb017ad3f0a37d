use linkedin_api::client::LinkedInClient;
use linkedin_api::error::Error;
use linkedin_api::feed::{
    element_matches_activity_id, entity_urn_contains, find_post_in_feed, metadata_contains_id,
    LookupStep,
};
use linkedin_api::json::{Json, ObjectBuilder};
use linkedin_api::urn::ActivityUrn;

fn client() -> LinkedInClient {
    LinkedInClient {
        base_url: "https://www.linkedin.com".to_string(),
        api_prefix: "/voyager/api/".to_string(),
        jsessionid: "ajax:1".to_string(),
    }
}

fn object(name: &str, value: Json) -> Json {
    ObjectBuilder::new().field(name, value).build()
}

fn post(urn: &str) -> Json {
    object("entityUrn", Json::text(urn))
}

fn page(elements: Vec<Json>) -> Json {
    object("elements", Json::array(elements))
}

fn urn() -> ActivityUrn {
    ActivityUrn { urn: "urn:li:activity:42".to_string(), activity_id: "42".to_string() }
}

#[test]
fn element_matches_activity_id_via_entity_urn() {
    let element = ObjectBuilder::new()
        .field(
            "entityUrn",
            Json::text(
                "urn:li:fs_updateV2:(urn:li:activity:7447168805107032064,MEMBER_SHARES,DEBUG_REASON,DEFAULT,false)",
            ),
        )
        .field("value", ObjectBuilder::new().build())
        .build();
    assert!(element_matches_activity_id(&element, "7447168805107032064"));
    assert!(!element_matches_activity_id(&element, "9999999999999999999"));
}

#[test]
fn element_matches_activity_id_via_update_metadata_urn() {
    let element = object(
        "value",
        object(
            "com.linkedin.voyager.feed.render.UpdateV2",
            object(
                "updateMetadata",
                object("urn", Json::text("urn:li:activity:7312345678901234567")),
            ),
        ),
    );
    assert!(element_matches_activity_id(&element, "7312345678901234567"));
}

#[test]
fn element_matches_activity_id_via_share_urn() {
    let metadata = ObjectBuilder::new()
        .field("urn", Json::text("urn:li:activity:7312345678901234567"))
        .field("shareUrn", Json::text("urn:li:ugcPost:7312345678901234560"))
        .build();
    let element = object(
        "value",
        object(
            "com.linkedin.voyager.feed.render.UpdateV2",
            object("updateMetadata", metadata),
        ),
    );
    assert!(element_matches_activity_id(&element, "7312345678901234560"));
}

#[test]
fn element_matches_activity_id_returns_false_when_absent() {
    let element = object("value", object("unrelated", Json::Bool(true)));
    assert!(!element_matches_activity_id(&element, "7312345678901234567"));
}

#[test]
fn metadata_directly_in_the_element_count_where_there_are_no_rendered_ones() {
    let element = object("updateMetadata", object("urn", Json::text("urn:li:activity:7")));
    assert!(element_matches_activity_id(&element, "activity:7"));
    let both = ObjectBuilder::new()
        .field(
            "value",
            object(
                "com.linkedin.voyager.feed.render.UpdateV2",
                object("updateMetadata", object("urn", Json::text("urn:li:activity:8"))),
            ),
        )
        .field("updateMetadata", object("urn", Json::text("urn:li:activity:7")))
        .build();
    assert!(element_matches_activity_id(&both, "activity:8"));
    assert!(!element_matches_activity_id(&both, "activity:7"));
}

#[test]
fn only_strings_carry_an_identifier() {
    assert!(entity_urn_contains(&post("urn:li:activity:5"), "5"));
    assert!(!entity_urn_contains(&object("entityUrn", Json::Unsigned(5)), "5"));
    assert!(!entity_urn_contains(&Json::text("5"), "5"));
    assert!(metadata_contains_id(&object("shareUrn", Json::text("x5y")), "5"));
    assert!(!metadata_contains_id(&object("other", Json::text("x5y")), "5"));
}

#[test]
fn feed_page_has_its_path() {
    assert_eq!(client().get_feed(0, 10), "feed/updates?q=findFeed&start=0&count=10");
    assert_eq!(
        client().get_feed(4294967295, 1234567890),
        "feed/updates?q=findFeed&start=4294967295&count=1234567890"
    );
}

#[test]
fn own_posts_have_their_path() {
    let path = client().get_my_posts(|s: &str| s.replace(':', "%3A"), "urn:li:fsd_profile:A", 20, 10);
    assert_eq!(
        path,
        "identity/profileUpdatesV2?q=memberShareFeed&profileUrn=urn%3Ali%3Afsd_profile%3AA&moduleKey=member-shares%3Aphone&start=20&count=10"
    );
}

#[test]
fn search_takes_the_first_match() {
    let reply = page(vec![
        post("urn:li:activity:1"),
        post("first urn:li:activity:42"),
        post("second urn:li:activity:42"),
    ]);
    assert_eq!(find_post_in_feed(&reply, "42"), Some(post("first urn:li:activity:42")));
    assert_eq!(find_post_in_feed(&reply, "43"), None);
    assert_eq!(find_post_in_feed(&Json::Null, "42"), None);
    assert_eq!(find_post_in_feed(&object("elements", Json::text("42")), "42"), None);
}

#[test]
fn lookup_finds_a_post_among_the_latest_updates() {
    let (mut lookup, path) = client().get_post(&urn());
    assert_eq!(path, "feed/updates?q=findFeed&start=0&count=50");
    let reply = page(vec![post("urn:li:activity:42")]);
    assert_eq!(lookup.reply(Some(&reply)), LookupStep::Found(post("urn:li:activity:42")));
}

#[test]
fn lookup_passes_on_the_failure_of_the_first_request() {
    let (mut lookup, _) = client().get_post(&urn());
    assert_eq!(lookup.reply(None), LookupStep::PassOn);
}

#[test]
fn lookup_tries_each_update_type_and_gives_up() {
    let (mut lookup, _) = client().get_post(&urn());
    let empty = page(vec![]);
    for update_type in ["SHARE", "ARTICLE", "VIDEO", "IMAGE"] {
        let expected = format!(
            "feed/updates?q=highlightedFeed&highlightedUpdateUrns=List(urn%3Ali%3Aactivity%3A42)&highlightedUpdateTypes=List({update_type})"
        );
        let reply = if update_type == "VIDEO" { None } else { Some(&empty) };
        assert_eq!(lookup.reply(reply), LookupStep::Get(expected));
    }
    let body = "post urn:li:activity:42 not in the top-50 feed window and the highlightedFeed \
                fallback returned no match. The permalink endpoint shape is \
                unverified; capture the request from \
                https://www.linkedin.com/feed/update/urn:li:activity:42 in browser devtools \
                and update get_post() with the captured path.";
    assert_eq!(
        lookup.reply(None),
        LookupStep::Missing(Error::Api {
            status: 404,
            body: body.to_string(),
            correlation_id: None,
        })
    );
}

#[test]
fn lookup_finds_a_highlighted_post() {
    let (mut lookup, _) = client().get_post(&urn());
    let empty = page(vec![]);
    assert!(matches!(lookup.reply(Some(&empty)), LookupStep::Get(_)));
    assert!(matches!(lookup.reply(None), LookupStep::Get(_)));
    let reply = page(vec![post("urn:li:activity:42")]);
    assert_eq!(lookup.reply(Some(&reply)), LookupStep::Found(post("urn:li:activity:42")));
}
