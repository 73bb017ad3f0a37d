//! Shares: publishing and scheduling one, reading one, and deleting one.

use vstd::prelude::*;

use crate::client::{ClientView, LinkedInClient};
use crate::effects::{says_what_was_given, sent_share_says_what_was_given};
use crate::error::{Error, ErrorView, outcome};
use crate::json::{Json, JsonView, ObjectBuilder, models, object};
use crate::media::{media_payload, media_payload_from_upload, text_option};
use crate::request::{
    Body, BodyView, Header, HttpRequest, HttpRequestView, Method, header_models, is_success,
    success,
};
use crate::text::{
    ascii_upper, capital, same_text, strip, to_uppercase, without_prefix,
};

verus! {

/// Whether a share can be visible in this way.
pub open spec fn is_visibility(visibility: Seq<char>) -> bool {
    visibility == "ANYONE"@ || visibility == "CONNECTIONS_ONLY"@
}

/// Whether a share can be in this state.
pub open spec fn is_lifecycle(lifecycle: Seq<char>) -> bool {
    lifecycle == "PUBLISHED"@ || lifecycle == "SCHEDULED"@
}

/// The fields of a share that every share has.
pub open spec fn plain_post(
    text: Seq<char>,
    visibility: Seq<char>,
    lifecycle: Seq<char>,
) -> JsonView {
    object()
        .entry("allowedCommentersScope"@, JsonView::Text("ALL"@))
        .entry("intendedShareLifeCycleState"@, JsonView::Text(lifecycle))
        .entry("origin"@, JsonView::Text("FEED"@))
        .entry("visibilityDataUnion"@, object().entry("visibilityType"@, JsonView::Text(visibility)))
        .entry(
            "commentary"@,
            object()
                .entry("text"@, JsonView::Text(text))
                .entry("attributesV2"@, JsonView::Array(Seq::empty())),
        )
}

/// The body of the mutation that creates a share.
pub open spec fn mutation_body(post: JsonView) -> JsonView {
    object()
        .entry("variables"@, object().entry("post"@, post))
        .entry(
            "queryId"@,
            JsonView::Text("voyagerContentcreationDashShares.279996efa5064c01775d5aff003d9377"@),
        )
        .entry("includeWebMetadata"@, JsonView::Bool(true))
}

/// The share with the time at which it is to appear, where it is scheduled.
pub open spec fn timed_post(post: JsonView, lifecycle: Seq<char>, scheduled_at_ms: Option<i64>) -> Result<
    JsonView,
    ErrorView,
> {
    if lifecycle != "SCHEDULED"@ {
        Ok(post)
    } else {
        match scheduled_at_ms {
            Some(time) => Ok(post.entry("scheduledAt"@, JsonView::integer(time as int))),
            None => Err(
                ErrorView::InvalidInput("scheduled_at_ms is required for SCHEDULED shares"@),
            ),
        }
    }
}

/// The share with its media, where it has any.
pub open spec fn illustrated_post(
    post: JsonView,
    media: Option<(JsonView, Option<Seq<char>>)>,
) -> Result<JsonView, ErrorView> {
    match media {
        None => Ok(post),
        Some((upload, title)) => match media_payload(upload, title) {
            Ok(payload) => Ok(post.entry("media"@, payload)),
            Err(error) => Err(error),
        },
    }
}

/// What a share is made of.
pub ghost struct ShareInput {
    pub text: Seq<char>,
    pub visibility: Seq<char>,
    pub lifecycle_state: Seq<char>,
    pub scheduled_at_ms: Option<i64>,
    /// The metadata of an upload, and the title of a document.
    pub media: Option<(JsonView, Option<Seq<char>>)>,
}

/// The body of the mutation that creates a share, given the visibility and the
/// state in capital letters.
pub open spec fn share_body(
    input: ShareInput,
    visibility: Seq<char>,
    lifecycle: Seq<char>,
) -> Result<JsonView, ErrorView> {
    if !is_visibility(visibility) {
        Err(
            ErrorView::InvalidInput(
                "invalid visibility '"@ + input.visibility
                    + "'. Must be ANYONE or CONNECTIONS_ONLY"@,
            ),
        )
    } else if !is_lifecycle(lifecycle) {
        Err(
            ErrorView::InvalidInput(
                "invalid lifecycle_state '"@ + input.lifecycle_state
                    + "'. Must be PUBLISHED or SCHEDULED"@,
            ),
        )
    } else {
        match timed_post(
            plain_post(input.text, visibility, lifecycle),
            lifecycle,
            input.scheduled_at_ms,
        ) {
            Err(error) => Err(error),
            Ok(post) => match illustrated_post(post, input.media) {
                Err(error) => Err(error),
                Ok(post) => Ok(mutation_body(post)),
            },
        }
    }
}

/// The model of the media of a share.
pub open spec fn media_option(media: Option<(&Json, Option<&str>)>) -> Option<
    (JsonView, Option<Seq<char>>),
> {
    match media {
        Some((upload, title)) => Some((upload@, text_option(title))),
        None => None,
    }
}

/// The body of the mutation that creates a share, given the visibility and the
/// state in capital letters.
pub fn share_body_from(
    text: &str,
    visibility: &str,
    capital_visibility: &str,
    lifecycle_state: &str,
    capital_lifecycle: &str,
    scheduled_at_ms: Option<i64>,
    media: Option<(&Json, Option<&str>)>,
) -> (body: Result<Json, Error>)
    ensures
        outcome(body) == share_body(
            (ShareInput {
                text: text@,
                visibility: visibility@,
                lifecycle_state: lifecycle_state@,
                scheduled_at_ms,
                media: media_option(media),
            }),
            capital_visibility@,
            capital_lifecycle@,
        ),
{
    if !same_text(capital_visibility, "ANYONE") && !same_text(
        capital_visibility,
        "CONNECTIONS_ONLY",
    ) {
        let message = "invalid visibility '".to_owned()
            .concat(visibility)
            .concat("'. Must be ANYONE or CONNECTIONS_ONLY");
        return Err(Error::invalid(message));
    }
    let scheduled = same_text(capital_lifecycle, "SCHEDULED");
    if !same_text(capital_lifecycle, "PUBLISHED") && !scheduled {
        let message = "invalid lifecycle_state '".to_owned()
            .concat(lifecycle_state)
            .concat("'. Must be PUBLISHED or SCHEDULED");
        return Err(Error::invalid(message));
    }
    let visibility_union = ObjectBuilder::new()
        .field("visibilityType", Json::text(capital_visibility))
        .build();
    let no_attributes: Vec<Json> = Vec::new();
    assert(models(no_attributes@) == Seq::<JsonView>::empty());
    let commentary = ObjectBuilder::new()
        .field("text", Json::text(text))
        .field("attributesV2", Json::array(no_attributes))
        .build();
    let mut post = ObjectBuilder::new()
        .field("allowedCommentersScope", Json::text("ALL"))
        .field("intendedShareLifeCycleState", Json::text(capital_lifecycle))
        .field("origin", Json::text("FEED"))
        .field("visibilityDataUnion", visibility_union)
        .field("commentary", commentary);
    if scheduled {
        match scheduled_at_ms {
            Some(time) => {
                post = post.field("scheduledAt", Json::integer(time));
            },
            None => {
                return Err(
                    Error::invalid("scheduled_at_ms is required for SCHEDULED shares".to_owned()),
                );
            },
        }
    }
    if let Some((upload, title)) = media {
        match media_payload_from_upload(upload, title) {
            Ok(payload) => {
                post = post.field("media", payload);
            },
            Err(error) => {
                return Err(error);
            },
        }
    }
    let variables = ObjectBuilder::new().field("post", post.build()).build();
    Ok(
        ObjectBuilder::new()
            .field("variables", variables)
            .field(
                "queryId",
                Json::text("voyagerContentcreationDashShares.279996efa5064c01775d5aff003d9377"),
            )
            .field("includeWebMetadata", Json::Bool(true))
            .build(),
    )
}

/// The body of the mutation that creates a share. The visibility and the state
/// may be in any letter case. A scheduled share needs a time, in milliseconds
/// since 1970; media come as the metadata of an upload with an optional title.
pub fn build_share_body(
    text: &str,
    visibility: &str,
    lifecycle_state: &str,
    scheduled_at_ms: Option<i64>,
    media: Option<(&Json, Option<&str>)>,
) -> (body: Result<Json, Error>)
    ensures
        outcome(body) == share_body(
            (ShareInput {
                text: text@,
                visibility: visibility@,
                lifecycle_state: lifecycle_state@,
                scheduled_at_ms,
                media: media_option(media),
            }),
            capital(visibility@),
            capital(lifecycle_state@),
        ),
{
    let capital_visibility = to_uppercase(visibility);
    let capital_lifecycle = to_uppercase(lifecycle_state);
    share_body_from(
        text,
        visibility,
        capital_visibility.as_str(),
        lifecycle_state,
        capital_lifecycle.as_str(),
        scheduled_at_ms,
        media,
    )
}

/// The request that creates a share.
pub open spec fn share_request(client: ClientView, body: JsonView) -> HttpRequestView {
    HttpRequestView {
        method: Method::Post,
        url: client.url(
            "graphql?action=execute&queryId=voyagerContentcreationDashShares.279996efa5064c01775d5aff003d9377"@,
        ),
        headers: Seq::empty()
            .push(("Csrf-Token"@, client.jsessionid))
            .push(("x-li-graphql-pegasus-client"@, "true"@)),
        body: BodyView::Json(body),
    }
}

/// The request that creates a share, or the refusal of what it is made of.
pub open spec fn checked_share_request(
    client: ClientView,
    input: ShareInput,
    visibility: Seq<char>,
    lifecycle: Seq<char>,
) -> Result<HttpRequestView, ErrorView> {
    match share_body(input, visibility, lifecycle) {
        Ok(body) => Ok(share_request(client, body)),
        Err(error) => Err(error),
    }
}

/// The states of a share are in capital letters.
proof fn lemma_lifecycles_are_capital()
    ensures
        capital("PUBLISHED"@) == "PUBLISHED"@,
        capital("SCHEDULED"@) == "SCHEDULED"@,
{
    reveal_strlit("PUBLISHED");
    reveal_strlit("SCHEDULED");
    assert(ascii_upper("PUBLISHED"@) == "PUBLISHED"@);
    assert(ascii_upper("SCHEDULED"@) == "SCHEDULED"@);
}

/// Whether an upload is reported as processed.
pub open spec fn is_ready(ready: JsonView) -> bool {
    match ready.field("ok"@) {
        Some(ok) => ok.boolean() == Some(true),
        None => false,
    }
}

/// How long to wait for an upload, in seconds: what the caller wants, but at
/// least one.
pub fn ready_wait_secs(ready_timeout_secs: u64) -> (secs: u64)
    ensures
        secs == if ready_timeout_secs == 0 {
            1
        } else {
            ready_timeout_secs
        },
{
    if ready_timeout_secs == 0 {
        1
    } else {
        ready_timeout_secs
    }
}

impl LinkedInClient {
    /// The request that creates a share.
    pub fn execute_share_mutation(&self, body: Json) -> (request: HttpRequest)
        ensures
            request@ == share_request(self@, body@),
    {
        let mut headers: Vec<Header> = Vec::new();
        headers.push(Header::new("Csrf-Token", self.jsessionid.as_str()));
        headers.push(Header::new("x-li-graphql-pegasus-client", "true"));
        assert(header_models(headers@) == share_request(self@, body@).headers);
        HttpRequest {
            method: Method::Post,
            url: self.url(
                "graphql?action=execute&queryId=voyagerContentcreationDashShares.279996efa5064c01775d5aff003d9377",
            ),
            headers,
            body: Body::Json(body),
        }
    }

    /// The request that publishes a post of text alone.
    pub fn create_post(&self, text: &str, visibility: &str) -> (request: Result<HttpRequest, Error>)
        ensures
            outcome(request) == checked_share_request(
                self@,
                (ShareInput {
                    text: text@,
                    visibility: visibility@,
                    lifecycle_state: "PUBLISHED"@,
                    scheduled_at_ms: None,
                    media: None,
                }),
                capital(visibility@),
                "PUBLISHED"@,
            ),
            request matches Ok(request) ==> says_what_was_given(
                request@,
                (ShareInput {
                    text: text@,
                    visibility: visibility@,
                    lifecycle_state: "PUBLISHED"@,
                    scheduled_at_ms: None,
                    media: None,
                }),
                capital(visibility@),
                "PUBLISHED"@,
            ),
    {
        let ghost input = ShareInput {
            text: text@,
            visibility: visibility@,
            lifecycle_state: "PUBLISHED"@,
            scheduled_at_ms: None,
            media: None,
        };
        let ghost upper = capital(visibility@);
        proof {
            if checked_share_request(self@, input, upper, "PUBLISHED"@) is Ok {
                sent_share_says_what_was_given(self@, input, upper, "PUBLISHED"@);
            }
            lemma_lifecycles_are_capital();
        }
        match build_share_body(text, visibility, "PUBLISHED", None, None) {
            Ok(body) => Ok(self.execute_share_mutation(body)),
            Err(error) => Err(error),
        }
    }

    /// The request that schedules a post of text alone. The time is in
    /// milliseconds since 1970.
    pub fn schedule_post(&self, text: &str, visibility: &str, scheduled_at_ms: i64) -> (request:
        Result<HttpRequest, Error>)
        ensures
            outcome(request) == checked_share_request(
                self@,
                (ShareInput {
                    text: text@,
                    visibility: visibility@,
                    lifecycle_state: "SCHEDULED"@,
                    scheduled_at_ms: Some(scheduled_at_ms),
                    media: None,
                }),
                capital(visibility@),
                "SCHEDULED"@,
            ),
            request matches Ok(request) ==> says_what_was_given(
                request@,
                (ShareInput {
                    text: text@,
                    visibility: visibility@,
                    lifecycle_state: "SCHEDULED"@,
                    scheduled_at_ms: Some(scheduled_at_ms),
                    media: None,
                }),
                capital(visibility@),
                "SCHEDULED"@,
            ),
    {
        let ghost input = ShareInput {
            text: text@,
            visibility: visibility@,
            lifecycle_state: "SCHEDULED"@,
            scheduled_at_ms: Some(scheduled_at_ms),
            media: None,
        };
        let ghost upper = capital(visibility@);
        proof {
            if checked_share_request(self@, input, upper, "SCHEDULED"@) is Ok {
                sent_share_says_what_was_given(self@, input, upper, "SCHEDULED"@);
            }
            lemma_lifecycles_are_capital();
        }
        match build_share_body(text, visibility, "SCHEDULED", Some(scheduled_at_ms), None) {
            Ok(body) => Ok(self.execute_share_mutation(body)),
            Err(error) => Err(error),
        }
    }

    /// The request that schedules a post with media, once these are uploaded:
    /// `media` are the metadata of the upload, and `ready` is the report of the
    /// wait until it was processed. Where that says that the media are not
    /// ready, the error shows the report.
    pub fn schedule_post_with_media(
        &self,
        text: &str,
        visibility: &str,
        scheduled_at_ms: i64,
        media: &Json,
        title: Option<&str>,
        ready: &Json,
    ) -> (request: Result<HttpRequest, Error>)
        ensures
            !is_ready(ready@) ==> outcome(request) == Err::<HttpRequestView, _>(
                ErrorView::api_about(408, "media did not become READY: "@, ready@),
            ),
            is_ready(ready@) ==> outcome(request) == checked_share_request(
                self@,
                (ShareInput {
                    text: text@,
                    visibility: visibility@,
                    lifecycle_state: "SCHEDULED"@,
                    scheduled_at_ms: Some(scheduled_at_ms),
                    media: Some((media@, text_option(title))),
                }),
                capital(visibility@),
                "SCHEDULED"@,
            ),
            request matches Ok(request) ==> says_what_was_given(
                request@,
                (ShareInput {
                    text: text@,
                    visibility: visibility@,
                    lifecycle_state: "SCHEDULED"@,
                    scheduled_at_ms: Some(scheduled_at_ms),
                    media: Some((media@, text_option(title))),
                }),
                capital(visibility@),
                "SCHEDULED"@,
            ),
    {
        let ghost input = ShareInput {
            text: text@,
            visibility: visibility@,
            lifecycle_state: "SCHEDULED"@,
            scheduled_at_ms: Some(scheduled_at_ms),
            media: Some((media@, text_option(title))),
        };
        let ghost upper = capital(visibility@);
        proof {
            if checked_share_request(self@, input, upper, "SCHEDULED"@) is Ok {
                sent_share_says_what_was_given(self@, input, upper, "SCHEDULED"@);
            }
        }
        let is_ready = match ready.get("ok") {
            Some(ok) => match ok.as_bool() {
                Some(ok) => ok,
                None => false,
            },
            None => false,
        };
        if !is_ready {
            return Err(Error::api_about(408, "media did not become READY: ", ready));
        }
        proof {
            lemma_lifecycles_are_capital();
        }
        match build_share_body(
            text,
            visibility,
            "SCHEDULED",
            Some(scheduled_at_ms),
            Some((media, title)),
        ) {
            Ok(body) => Ok(self.execute_share_mutation(body)),
            Err(error) => Err(error),
        }
    }
}

/// The name of a share without the prefix that its URN may have.
pub open spec fn share_key(share_urn: Seq<char>) -> Seq<char> {
    without_prefix(share_urn, "urn:li:fsd_share:"@)
}

/// The parameters of the query for a share.
pub open spec fn share_params(encoded_key: Seq<char>) -> Seq<char> {
    "variables=(shareUrns:List("@ + encoded_key
        + "))&queryId=voyagerContentcreationDashShares.b6c8295dc377a63224101ecce6d3c1ca"@
}

/// The request that deletes a share.
pub open spec fn delete_request(client: ClientView, encoded_key: Seq<char>) -> HttpRequestView {
    HttpRequestView {
        method: Method::Delete,
        url: client.url("contentcreation/normShares/"@) + encoded_key,
        headers: Seq::empty().push(("Csrf-Token"@, client.jsessionid)),
        body: BodyView::Empty,
    }
}

/// What follows from the answer to a deletion.
pub open spec fn deletion_result(key: Seq<char>, status: u16, body: Seq<char>) -> Result<
    JsonView,
    ErrorView,
> {
    if success(status) {
        Ok(
            object()
                .entry("status_code"@, JsonView::Unsigned(status as u64))
                .entry("share_urn"@, JsonView::Text(key)),
        )
    } else {
        Err(ErrorView::api(status, body))
    }
}

/// The deletion of a share, once it is under way.
#[derive(Debug, PartialEq, Eq)]
pub struct ShareDeletion {
    /// The name of the share without the prefix that its URN may have.
    pub key: String,
}

/// The parameters of the query for a share whose name is fit to stand in a
/// query.
pub fn query_share(encoded_key: &str) -> (params: String)
    ensures
        params@ == share_params(encoded_key@),
{
    "variables=(shareUrns:List(".to_owned()
        .concat(encoded_key)
        .concat("))&queryId=voyagerContentcreationDashShares.b6c8295dc377a63224101ecce6d3c1ca")
}

impl LinkedInClient {
    /// The parameters of the query for a share. `encode` makes a string fit to
    /// stand in a query.
    pub fn get_share<F: Fn(&str) -> String>(&self, encode: F, share_urn: &str) -> (params: String)
        requires
            forall|s: &str| call_requires(encode, (s,)),
        ensures
            exists|s: &str, encoded: String|
                {
                    &&& s@ == share_key(share_urn@)
                    &&& #[trigger] call_ensures(encode, (s,), encoded)
                    &&& params@ == share_params(encoded@)
                },
    {
        let encoded = encode(strip(share_urn, "urn:li:fsd_share:"));
        query_share(encoded.as_str())
    }

    /// The request that deletes a share whose name is fit to stand in a path.
    pub fn deletion_request(&self, encoded_key: &str) -> (request: HttpRequest)
        ensures
            request@ == delete_request(self@, encoded_key@),
    {
        let mut headers: Vec<Header> = Vec::new();
        headers.push(Header::new("Csrf-Token", self.jsessionid.as_str()));
        assert(header_models(headers@) == delete_request(self@, encoded_key@).headers);
        HttpRequest {
            method: Method::Delete,
            url: self.url("contentcreation/normShares/").concat(encoded_key),
            headers,
            body: Body::Empty,
        }
    }

    /// Starts the deletion of a share. Returns the deletion and the request to
    /// send. `encode` makes a string fit to stand in a path.
    pub fn delete_share<F: Fn(&str) -> String>(&self, encode: F, share_urn: &str) -> (start: (
        ShareDeletion,
        HttpRequest,
    ))
        requires
            forall|s: &str| call_requires(encode, (s,)),
        ensures
            start.0.key@ == share_key(share_urn@),
            exists|s: &str, encoded: String|
                {
                    &&& s@ == share_key(share_urn@)
                    &&& #[trigger] call_ensures(encode, (s,), encoded)
                    &&& start.1@ == delete_request(self@, encoded@)
                },
    {
        let key = strip(share_urn, "urn:li:fsd_share:");
        let encoded = encode(key);
        (ShareDeletion { key: key.to_owned() }, self.deletion_request(encoded.as_str()))
    }
}

impl ShareDeletion {
    /// What follows from the answer: the status and the name of the share, or
    /// the error that the answer is.
    pub fn reply(&self, status: u16, body: String) -> (result: Result<Json, Error>)
        ensures
            outcome(result) == deletion_result(self.key@, status, body@),
    {
        if !is_success(status) {
            return Err(Error::api(status, body));
        }
        Ok(
            ObjectBuilder::new()
                .field("status_code", Json::Unsigned(status as u64))
                .field("share_urn", Json::text(self.key.as_str()))
                .build(),
        )
    }
}

}
