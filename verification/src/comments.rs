//! Comments: reading them, and writing one.

use vstd::prelude::*;

use crate::client::LinkedInClient;
use crate::error::{Error, ErrorView, outcome};
use crate::json::{Json, JsonView, ObjectBuilder, object};
use crate::request::{GraphqlMutation, GraphqlMutationView, GraphqlQuery, GraphqlQueryView};
use crate::text::{decimal, push_decimal};
use crate::urn::{ActivityUrn, SocialDetailUrn};

verus! {

/// The query for `count` comments from `start` on, the most relevant first.
pub open spec fn comments_query(
    encoded_urn: Seq<char>,
    start: u32,
    count: u32,
) -> GraphqlQueryView {
    GraphqlQueryView {
        variables: "(count:"@ + decimal(count as nat) + ",socialDetailUrn:"@ + encoded_urn
            + ",sortOrder:RELEVANCE,start:"@ + decimal(start as nat) + ")"@,
        query_id: "voyagerSocialDashComments.59bca422f480a4cc0ce56ccd81181488"@,
        query_name: "SocialDashCommentsBySocialDetail"@,
        result_key: "socialDashCommentsBySocialDetail"@,
    }
}

/// The query for `count` replies to a comment, from a cursor on.
pub open spec fn replies_query(
    encoded_urn: Seq<char>,
    count: u32,
    encoded_cursor: Seq<char>,
) -> GraphqlQueryView {
    GraphqlQueryView {
        variables: "(commentUrn:"@ + encoded_urn + ",count:"@ + decimal(count as nat) + ",cursor:"@
            + encoded_cursor + ")"@,
        query_id: "voyagerSocialDashComments.8ada653d14b465e4f86d3ed7dcbe6695"@,
        query_name: "SocialDashCommentsByRepliesByCursor"@,
        result_key: "socialDashCommentsByRepliesByCursor"@,
    }
}

/// The query for one comment.
pub open spec fn single_comment_query(
    encoded_comment: Seq<char>,
    encoded_thread: Seq<char>,
) -> GraphqlQueryView {
    GraphqlQueryView {
        variables: "(commentUrn:"@ + encoded_comment + ",updateThreadUrn:"@ + encoded_thread
            + ")"@,
        query_id: "voyagerSocialDashComments.a84e91d6baaa2d2018fdc49f21541de5"@,
        query_name: "SocialDashCommentsBySingleComment"@,
        result_key: "socialDashCommentsBySingleComment"@,
    }
}

/// The query for `count` comments from `start` on. The URN is fit to stand in
/// a query.
pub fn query_comments(encoded_urn: &str, start: u32, count: u32) -> (query: GraphqlQuery)
    ensures
        query@ == comments_query(encoded_urn@, start, count),
{
    let mut variables = "(count:".to_owned();
    push_decimal(&mut variables, count as u64);
    variables.append(",socialDetailUrn:");
    variables.append(encoded_urn);
    variables.append(",sortOrder:RELEVANCE,start:");
    push_decimal(&mut variables, start as u64);
    variables.append(")");
    GraphqlQuery {
        variables,
        query_id: "voyagerSocialDashComments.59bca422f480a4cc0ce56ccd81181488",
        query_name: "SocialDashCommentsBySocialDetail",
        result_key: "socialDashCommentsBySocialDetail",
    }
}

/// The query for `count` replies to a comment. The URN and the cursor are fit
/// to stand in a query.
pub fn query_replies(encoded_urn: &str, count: u32, encoded_cursor: &str) -> (query: GraphqlQuery)
    ensures
        query@ == replies_query(encoded_urn@, count, encoded_cursor@),
{
    let mut variables = "(commentUrn:".to_owned();
    variables.append(encoded_urn);
    variables.append(",count:");
    push_decimal(&mut variables, count as u64);
    variables.append(",cursor:");
    variables.append(encoded_cursor);
    variables.append(")");
    GraphqlQuery {
        variables,
        query_id: "voyagerSocialDashComments.8ada653d14b465e4f86d3ed7dcbe6695",
        query_name: "SocialDashCommentsByRepliesByCursor",
        result_key: "socialDashCommentsByRepliesByCursor",
    }
}

/// The query for one comment. The URNs are fit to stand in a query.
pub fn query_single_comment(encoded_comment: &str, encoded_thread: &str) -> (query: GraphqlQuery)
    ensures
        query@ == single_comment_query(encoded_comment@, encoded_thread@),
{
    let mut variables = "(commentUrn:".to_owned();
    variables.append(encoded_comment);
    variables.append(",updateThreadUrn:");
    variables.append(encoded_thread);
    variables.append(")");
    GraphqlQuery {
        variables,
        query_id: "voyagerSocialDashComments.a84e91d6baaa2d2018fdc49f21541de5",
        query_name: "SocialDashCommentsBySingleComment",
        result_key: "socialDashCommentsBySingleComment",
    }
}

/// The mutation that writes a comment into a thread.
pub open spec fn comment(thread: Seq<char>, text: Seq<char>) -> GraphqlMutationView {
    GraphqlMutationView {
        variables: object().entry(
            "entity"@,
            object()
                .entry("commentary"@, object().entry("text"@, JsonView::Text(text)))
                .entry("threadUrn"@, JsonView::Text(thread))
                .entry("origin"@, JsonView::Text("FEED"@)),
        ),
        query_id: "voyagerSocialDashNormComments.cd3d2a3fd6c9b2881c7cac32847ec05e"@,
        query_name: "CreateSocialDashNormComments"@,
    }
}

/// The mutation that writes a comment into a thread.
pub fn comment_mutation(thread: &str, text: &str) -> (mutation: GraphqlMutation)
    ensures
        mutation@ == comment(thread@, text@),
{
    let commentary = ObjectBuilder::new().field("text", Json::text(text)).build();
    let entity = ObjectBuilder::new()
        .field("commentary", commentary)
        .field("threadUrn", Json::text(thread))
        .field("origin", Json::text("FEED"))
        .build();
    GraphqlMutation {
        variables: ObjectBuilder::new().field("entity", entity).build(),
        query_id: "voyagerSocialDashNormComments.cd3d2a3fd6c9b2881c7cac32847ec05e",
        query_name: "CreateSocialDashNormComments",
    }
}

impl LinkedInClient {
    /// The query for `count` comments on a post from `start` on. `encode`
    /// makes a string fit to stand in a query.
    pub fn get_comments<F: Fn(&str) -> String>(
        &self,
        encode: F,
        social_detail_urn: &SocialDetailUrn,
        start: u32,
        count: u32,
    ) -> (query: GraphqlQuery)
        requires
            forall|s: &str| call_requires(encode, (s,)),
        ensures
            exists|s: &str, encoded: String|
                {
                    &&& s@ == social_detail_urn.urn@
                    &&& #[trigger] call_ensures(encode, (s,), encoded)
                    &&& query@ == comments_query(encoded@, start, count)
                },
    {
        let encoded = encode(social_detail_urn.urn.as_str());
        query_comments(encoded.as_str(), start, count)
    }

    /// The query for `count` replies to a comment. The cursor comes with the
    /// comment and must not be empty. `encode` makes a string fit to stand in
    /// a query.
    pub fn get_comment_replies<F: Fn(&str) -> String>(
        &self,
        encode: F,
        comment_urn: &str,
        count: u32,
        cursor: &str,
    ) -> (query: Result<GraphqlQuery, Error>)
        requires
            forall|s: &str| call_requires(encode, (s,)),
        ensures
            cursor@.len() == 0 ==> outcome(query) == Err::<GraphqlQueryView, _>(
                ErrorView::InvalidInput(
                    "get_comment_replies requires a non-empty cursor from the parent comment"@,
                ),
            ),
            cursor@.len() > 0 ==> exists|encoded_urn: String, encoded_cursor: String|
                {
                    &&& #[trigger] call_ensures(encode, (comment_urn,), encoded_urn)
                    &&& #[trigger] call_ensures(encode, (cursor,), encoded_cursor)
                    &&& outcome(query) == Ok::<_, ErrorView>(
                        replies_query(encoded_urn@, count, encoded_cursor@),
                    )
                },
    {
        if cursor.is_empty() {
            return Err(
                Error::invalid(
                    "get_comment_replies requires a non-empty cursor from the parent comment".to_owned(),
                ),
            );
        }
        let encoded_urn = encode(comment_urn);
        let encoded_cursor = encode(cursor);
        Ok(query_replies(encoded_urn.as_str(), count, encoded_cursor.as_str()))
    }

    /// The query for one comment in a thread. `encode` makes a string fit to
    /// stand in a query.
    pub fn get_single_comment<F: Fn(&str) -> String>(
        &self,
        encode: F,
        comment_urn: &str,
        update_thread_urn: &str,
    ) -> (query: GraphqlQuery)
        requires
            forall|s: &str| call_requires(encode, (s,)),
        ensures
            exists|encoded_comment: String, encoded_thread: String|
                {
                    &&& #[trigger] call_ensures(encode, (comment_urn,), encoded_comment)
                    &&& #[trigger] call_ensures(encode, (update_thread_urn,), encoded_thread)
                    &&& query@ == single_comment_query(encoded_comment@, encoded_thread@)
                },
    {
        let encoded_comment = encode(comment_urn);
        let encoded_thread = encode(update_thread_urn);
        query_single_comment(encoded_comment.as_str(), encoded_thread.as_str())
    }

    /// The mutation that comments on a post.
    pub fn comment_on_post(&self, post_urn: &ActivityUrn, text: &str) -> (mutation: GraphqlMutation)
        ensures
            mutation@ == comment(post_urn.urn@, text@),
    {
        comment_mutation(post_urn.urn.as_str(), text)
    }

    /// The mutation that replies to a comment: a comment in the thread that
    /// `normalize` makes of the URN of the comment.
    pub fn reply_to_comment<F: Fn(&str) -> String>(
        &self,
        normalize: F,
        comment_urn: &str,
        text: &str,
    ) -> (mutation: GraphqlMutation)
        requires
            forall|s: &str| call_requires(normalize, (s,)),
        ensures
            exists|thread: String|
                {
                    &&& #[trigger] call_ensures(normalize, (comment_urn,), thread)
                    &&& mutation@ == comment(thread@, text@)
                },
    {
        let thread = normalize(comment_urn);
        comment_mutation(thread.as_str(), text)
    }
}

}
