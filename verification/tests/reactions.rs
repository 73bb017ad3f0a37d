use linkedin_api::client::LinkedInClient;
use linkedin_api::error::Error;
use linkedin_api::json::{Json, ObjectBuilder};
use linkedin_api::reactions::{
    check_reaction_type, read_reactions_page, validate_reaction_type, ReactionPager,
};
use linkedin_api::urn::ActivityUrn;

fn client() -> LinkedInClient {
    LinkedInClient {
        base_url: "https://www.linkedin.com".to_string(),
        api_prefix: "/voyager/api/".to_string(),
        jsessionid: "ajax:1".to_string(),
    }
}

fn urn() -> ActivityUrn {
    ActivityUrn { urn: "urn:li:activity:42".to_string(), activity_id: "42".to_string() }
}

fn numbers(from: u64, to: u64) -> Vec<Json> {
    (from..to).map(Json::Unsigned).collect()
}

fn page(elements: Vec<Json>, total: Option<u64>) -> Json {
    let page = ObjectBuilder::new().field("elements", Json::array(elements));
    match total {
        Some(total) => {
            let paging = ObjectBuilder::new().field("total", Json::Unsigned(total)).build();
            page.field("paging", paging).build()
        }
        None => page.build(),
    }
}

fn params(count: u32, start: u32) -> String {
    format!(
        "variables=(count:{count},start:{start},threadUrn:urn%3Ax)&queryId=voyagerSocialDashReactions.41ebf31a9f4c4a84e35a49d5abc9010b"
    )
}

#[test]
fn reactions_are_accepted_in_any_letter_case() {
    for name in [
        "LIKE",
        "PRAISE",
        "EMPATHY",
        "INTEREST",
        "APPRECIATION",
        "ENTERTAINMENT",
        "CELEBRATION",
    ] {
        assert_eq!(validate_reaction_type(name).unwrap(), name);
        assert_eq!(validate_reaction_type(&name.to_lowercase()).unwrap(), name);
    }
    assert_eq!(validate_reaction_type("LiKe").unwrap(), "LIKE");
}

#[test]
fn capital_form_follows_unicode() {
    // The capital form of a dotless i is the plain capital letter.
    assert_eq!(validate_reaction_type("l\u{131}ke").unwrap(), "LIKE");
}

#[test]
fn unknown_reactions_are_refused() {
    assert_eq!(
        validate_reaction_type("dislike").unwrap_err(),
        Error::InvalidInput(
            "invalid reaction type 'dislike'. Valid types: LIKE, PRAISE, EMPATHY, INTEREST, APPRECIATION, ENTERTAINMENT, CELEBRATION"
                .to_string()
        )
    );
    assert!(validate_reaction_type("").is_err());
    assert_eq!(check_reaction_type("x", "PRAISE".to_string()).unwrap(), "PRAISE");
    assert!(check_reaction_type("like", "like".to_string()).is_err());
}

#[test]
fn reaction_names_thread_and_type_on_both_levels() {
    let mutation = client().react_to_post(&urn(), "praise").unwrap();
    let inner = ObjectBuilder::new()
        .field("threadUrn", Json::text("urn:li:activity:42"))
        .field("reactionType", Json::text("PRAISE"))
        .build();
    let expected = ObjectBuilder::new()
        .field("threadUrn", Json::text("urn:li:activity:42"))
        .field("reactionType", Json::text("PRAISE"))
        .field("entity", inner)
        .build();
    assert_eq!(mutation.variables, expected);
    assert_eq!(mutation.query_id, "voyagerSocialDashReactions.fd68eadaf15da416b0d839e21399b763");
    assert_eq!(mutation.query_name, "CreateSocialDashReactions");
    assert!(client().react_to_post(&urn(), "boo").is_err());
}

#[test]
fn reaction_is_taken_back_by_its_own_mutation() {
    let mutation = client().unreact_from_post(&urn(), "like").unwrap();
    let expected = ObjectBuilder::new()
        .field("threadUrn", Json::text("urn:li:activity:42"))
        .field("reactionType", Json::text("LIKE"))
        .build();
    assert_eq!(mutation.variables, expected);
    assert_eq!(mutation.query_id, "voyagerSocialDashReactions.315cef4773de8e3a0ddad7655cc1685f");
    assert_eq!(mutation.query_name, "DoDeleteReactionSocialDashReactions");
    assert!(client().unreact_from_post(&urn(), "boo").is_err());
}

#[test]
fn page_without_elements_or_total_is_empty() {
    assert_eq!(read_reactions_page(&Json::Null), (vec![], None));
    assert_eq!(
        read_reactions_page(&page(numbers(0, 2), Some(9))),
        (numbers(0, 2), Some(9))
    );
}

#[test]
fn reactors_are_collected_page_by_page() {
    let mut pager = client().get_post_reactions(|_: &str| "urn%3Ax".to_string(), &urn(), 3, 25);
    assert_eq!(pager.next_request(), Some(params(10, 3)));
    assert!(pager.page_fits(&page(numbers(0, 10), Some(100))));
    pager.take_page(&page(numbers(0, 10), Some(100)));
    assert_eq!(pager.next_request(), Some(params(10, 13)));
    // A later total does not count.
    pager.take_page(&page(numbers(10, 20), Some(1)));
    assert_eq!(pager.next_request(), Some(params(5, 23)));
    pager.take_page(&page(numbers(20, 25), None));
    assert_eq!(pager.next_request(), None);
    let paging = ObjectBuilder::new()
        .field("start", Json::Unsigned(3))
        .field("count", Json::Unsigned(25))
        .field("total", Json::Unsigned(100))
        .build();
    let expected = ObjectBuilder::new()
        .field("elements", Json::array(numbers(0, 25)))
        .field("paging", paging)
        .build();
    assert_eq!(pager.result(), expected);
}

#[test]
fn collection_ends_at_the_total() {
    let mut pager = ReactionPager::new("urn%3Ax".to_string(), 0, 50);
    pager.take_page(&page(numbers(0, 8), Some(10)));
    assert_eq!(pager.next_request(), None);
    let paging = ObjectBuilder::new()
        .field("start", Json::Unsigned(0))
        .field("count", Json::Unsigned(8))
        .field("total", Json::Unsigned(10))
        .build();
    assert_eq!(pager.result().get("paging"), Some(&paging));
}

#[test]
fn collection_ends_with_an_empty_page() {
    let mut pager = ReactionPager::new("urn%3Ax".to_string(), 0, 50);
    pager.take_page(&page(numbers(0, 4), None));
    // The next request starts a batch further on, though the page was short.
    assert_eq!(pager.next_request(), Some(params(10, 10)));
    pager.take_page(&page(vec![], None));
    assert_eq!(pager.next_request(), None);
    let list = pager.result();
    assert_eq!(list.get("paging").unwrap().unsigned_at("count"), Some(4));
    assert_eq!(list.get("paging").unwrap().unsigned_at("total"), Some(4));
}

#[test]
fn nothing_is_asked_for_where_nobody_is_wanted() {
    let pager = ReactionPager::new("urn%3Ax".to_string(), 7, 0);
    assert_eq!(pager.next_request(), None);
}

#[test]
fn pages_that_are_too_long_do_not_fit() {
    let pager = ReactionPager::new("urn%3Ax".to_string(), 0, 5);
    assert!(pager.page_fits(&page(numbers(0, 5), None)));
    assert!(!pager.page_fits(&page(numbers(0, 6), None)));
    // Where the total is reached, the collection does not go on.
    assert!(pager.page_fits(&page(numbers(0, 6), Some(5))));
    let last = ReactionPager::new("urn%3Ax".to_string(), u32::MAX, 5);
    assert!(!last.page_fits(&page(numbers(0, 1), None)));
    assert!(last.page_fits(&page(vec![], None)));
}
