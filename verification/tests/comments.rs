use linkedin_api::client::LinkedInClient;
use linkedin_api::json::{Json, ObjectBuilder};
use linkedin_api::urn::{ActivityUrn, SocialDetailUrn};

fn client() -> LinkedInClient {
    LinkedInClient {
        base_url: "https://www.linkedin.com".to_string(),
        api_prefix: "/voyager/api/".to_string(),
        jsessionid: "ajax:1".to_string(),
    }
}

fn encode(s: &str) -> String {
    s.replace(':', "%3A")
}

fn comment(thread: &str, text: &str) -> Json {
    let commentary = ObjectBuilder::new().field("text", Json::text(text)).build();
    let entity = ObjectBuilder::new()
        .field("commentary", commentary)
        .field("threadUrn", Json::text(thread))
        .field("origin", Json::text("FEED"))
        .build();
    ObjectBuilder::new().field("entity", entity).build()
}

#[test]
fn comments_are_queried_by_relevance() {
    let urn = SocialDetailUrn { urn: "urn:li:fsd_socialDetail:7".to_string() };
    let query = client().get_comments(encode, &urn, 5, 20);
    assert_eq!(
        query.variables,
        "(count:20,socialDetailUrn:urn%3Ali%3Afsd_socialDetail%3A7,sortOrder:RELEVANCE,start:5)"
    );
    assert_eq!(query.query_id, "voyagerSocialDashComments.59bca422f480a4cc0ce56ccd81181488");
    assert_eq!(query.query_name, "SocialDashCommentsBySocialDetail");
    assert_eq!(query.result_key, "socialDashCommentsBySocialDetail");
}

#[test]
fn replies_need_a_cursor() {
    let error = client().get_comment_replies(encode, "urn:li:comment:1", 3, "").unwrap_err();
    assert_eq!(
        error.message(),
        "get_comment_replies requires a non-empty cursor from the parent comment"
    );
    let query = client().get_comment_replies(encode, "urn:li:comment:1", 3, "a:b").unwrap();
    assert_eq!(query.variables, "(commentUrn:urn%3Ali%3Acomment%3A1,count:3,cursor:a%3Ab)");
    assert_eq!(query.query_id, "voyagerSocialDashComments.8ada653d14b465e4f86d3ed7dcbe6695");
    assert_eq!(query.query_name, "SocialDashCommentsByRepliesByCursor");
    assert_eq!(query.result_key, "socialDashCommentsByRepliesByCursor");
}

#[test]
fn single_comment_is_queried_in_its_thread() {
    let query = client().get_single_comment(encode, "c:1", "t:2");
    assert_eq!(query.variables, "(commentUrn:c%3A1,updateThreadUrn:t%3A2)");
    assert_eq!(query.query_id, "voyagerSocialDashComments.a84e91d6baaa2d2018fdc49f21541de5");
    assert_eq!(query.query_name, "SocialDashCommentsBySingleComment");
    assert_eq!(query.result_key, "socialDashCommentsBySingleComment");
}

#[test]
fn comment_names_its_thread_and_text() {
    let urn = ActivityUrn { urn: "urn:li:activity:42".to_string(), activity_id: "42".to_string() };
    let mutation = client().comment_on_post(&urn, "nice");
    assert_eq!(mutation.variables, comment("urn:li:activity:42", "nice"));
    assert_eq!(mutation.query_id, "voyagerSocialDashNormComments.cd3d2a3fd6c9b2881c7cac32847ec05e");
    assert_eq!(mutation.query_name, "CreateSocialDashNormComments");
}

#[test]
fn reply_is_a_comment_in_the_thread_of_the_comment() {
    let mutation = client().reply_to_comment(
        |s: &str| s.replace("fsd_comment", "comment"),
        "urn:li:fsd_comment:9",
        "thanks",
    );
    let urn = ActivityUrn { urn: "urn:li:comment:9".to_string(), activity_id: "9".to_string() };
    assert_eq!(mutation, client().comment_on_post(&urn, "thanks"));
}
