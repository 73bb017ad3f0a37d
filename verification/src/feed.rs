//! The feed: its pages, the caller's own posts, and the search for one post.

use vstd::prelude::*;

use crate::client::LinkedInClient;
use crate::effects::reply_is_searched_to_the_end;
use crate::error::{Error, ErrorView};
use crate::json::{Json, JsonView, model_if_any, model_if_lent, models};
use crate::text::{contains, decimal, occurs_in, push_decimal, replace, replaced};
use crate::urn::ActivityUrn;

verus! {

/// The path of `count` updates of the feed from `start` on.
pub open spec fn feed_path(start: u32, count: u32) -> Seq<char> {
    "feed/updates?q=findFeed&start="@ + decimal(start as nat) + "&count="@ + decimal(count as nat)
}

/// The path of `count` posts of a member from `start` on.
pub open spec fn my_posts_path(encoded_urn: Seq<char>, start: u32, count: u32) -> Seq<char> {
    "identity/profileUpdatesV2?q=memberShareFeed&profileUrn="@ + encoded_urn
        + "&moduleKey=member-shares%3Aphone&start="@ + decimal(start as nat) + "&count="@
        + decimal(count as nat)
}

/// The path of `count` posts of the member with the given URN, which is fit to
/// stand in a query.
pub fn posts_path(encoded_urn: &str, start: u32, count: u32) -> (path: String)
    ensures
        path@ == my_posts_path(encoded_urn@, start, count),
{
    let mut path = "identity/profileUpdatesV2?q=memberShareFeed&profileUrn=".to_owned();
    path.append(encoded_urn);
    path.append("&moduleKey=member-shares%3Aphone&start=");
    push_decimal(&mut path, start as u64);
    path.append("&count=");
    push_decimal(&mut path, count as u64);
    path
}

impl LinkedInClient {
    /// The path of `count` updates of the feed from `start` on.
    pub fn get_feed(&self, start: u32, count: u32) -> (path: String)
        ensures
            path@ == feed_path(start, count),
    {
        let mut path = "feed/updates?q=findFeed&start=".to_owned();
        push_decimal(&mut path, start as u64);
        path.append("&count=");
        push_decimal(&mut path, count as u64);
        path
    }

    /// The path of `count` of the caller's own posts from `start` on.
    /// `profile_urn` names the caller; `encode` makes a string fit to stand in
    /// a query.
    pub fn get_my_posts<F: Fn(&str) -> String>(
        &self,
        encode: F,
        profile_urn: &str,
        start: u32,
        count: u32,
    ) -> (path: String)
        requires
            forall|s: &str| call_requires(encode, (s,)),
        ensures
            exists|encoded: String|
                {
                    &&& #[trigger] call_ensures(encode, (profile_urn,), encoded)
                    &&& path@ == my_posts_path(encoded@, start, count)
                },
    {
        let encoded = encode(profile_urn);
        posts_path(encoded.as_str(), start, count)
    }
}

/// Whether the string in a field has the identifier in it.
pub open spec fn slot_carries(json: JsonView, slot: Seq<char>, id: Seq<char>) -> bool {
    match json.text_at(slot) {
        Some(text) => occurs_in(id, text),
        None => false,
    }
}

/// The metadata of an update: in the rendered form, or else directly in the
/// element.
pub open spec fn update_metadata(element: JsonView) -> Option<JsonView> {
    let rendered = match element.field("value"@) {
        Some(value) => match value.field("com.linkedin.voyager.feed.render.UpdateV2"@) {
            Some(update) => update.field("updateMetadata"@),
            None => None,
        },
        None => None,
    };
    match rendered {
        Some(metadata) => Some(metadata),
        None => element.field("updateMetadata"@),
    }
}

/// Whether the metadata of an update have the identifier in one of their URNs.
pub open spec fn metadata_carries(metadata: JsonView, id: Seq<char>) -> bool {
    slot_carries(metadata, "urn"@, id) || slot_carries(metadata, "shareUrn"@, id)
}

/// Whether an element of the feed is the post with the identifier.
pub open spec fn carries_activity_id(element: JsonView, id: Seq<char>) -> bool {
    ||| slot_carries(element, "entityUrn"@, id)
    ||| match update_metadata(element) {
        Some(metadata) => metadata_carries(metadata, id),
        None => false,
    }
}

fn slot_contains(json: &Json, slot: &str, id: &str) -> (found: bool)
    ensures
        found == slot_carries(json@, slot@, id@),
{
    match json.text_at(slot) {
        Some(text) => contains(text, id),
        None => false,
    }
}

/// Whether the element's own URN has the identifier in it.
pub fn entity_urn_contains(element: &Json, id: &str) -> (found: bool)
    ensures
        found == slot_carries(element@, "entityUrn"@, id@),
{
    slot_contains(element, "entityUrn", id)
}

/// Whether the metadata of an update have the identifier in one of their URNs.
pub fn metadata_contains_id(metadata: &Json, id: &str) -> (found: bool)
    ensures
        found == metadata_carries(metadata@, id@),
{
    slot_contains(metadata, "urn", id) || slot_contains(metadata, "shareUrn", id)
}

fn metadata_of(element: &Json) -> (metadata: Option<&Json>)
    ensures
        model_if_lent(metadata) == update_metadata(element@),
{
    if let Some(value) = element.get("value") {
        if let Some(update) = value.get("com.linkedin.voyager.feed.render.UpdateV2") {
            if let Some(metadata) = update.get("updateMetadata") {
                return Some(metadata);
            }
        }
    }
    element.get("updateMetadata")
}

/// Whether an element of the feed is the post with the identifier. The feed
/// names a post in several places: the URN of the element, and the two URNs in
/// its metadata.
pub fn element_matches_activity_id(element: &Json, activity_id: &str) -> (matches: bool)
    ensures
        matches == carries_activity_id(element@, activity_id@),
{
    if entity_urn_contains(element, activity_id) {
        return true;
    }
    match metadata_of(element) {
        Some(metadata) => metadata_contains_id(metadata, activity_id),
        None => false,
    }
}

/// The first of the elements that is the post with the identifier.
pub open spec fn first_match(elements: Seq<JsonView>, id: Seq<char>) -> Option<JsonView>
    decreases elements.len(),
{
    if elements.len() == 0 {
        None
    } else {
        match first_match(elements.drop_last(), id) {
            Some(found) => Some(found),
            None => if carries_activity_id(elements.last(), id) {
                Some(elements.last())
            } else {
                None
            },
        }
    }
}

/// The post with the identifier in a reply of the feed.
pub open spec fn post_in(reply: JsonView, id: Seq<char>) -> Option<JsonView> {
    match reply.items_at("elements"@) {
        Some(elements) => first_match(elements, id),
        None => None,
    }
}

/// The first element of a reply of the feed that is the post with the
/// identifier.
pub fn find_post_in_feed(reply: &Json, activity_id: &str) -> (found: Option<Json>)
    ensures
        model_if_any(found) == post_in(reply@, activity_id@),
        reply@.items_at("elements"@) is None ==> found is None,
        reply@.items_at("elements"@) matches Some(elements) ==> {
            &&& found is None <==> forall|i: int|
                0 <= i < elements.len() ==> !carries_activity_id(
                    #[trigger] elements[i],
                    activity_id@,
                )
            &&& forall|i: int|
                {
                    &&& 0 <= i < elements.len()
                    &&& carries_activity_id(#[trigger] elements[i], activity_id@)
                    &&& forall|j: int|
                        0 <= j < i ==> !carries_activity_id(#[trigger] elements[j], activity_id@)
                } ==> found is Some && found->0@ == elements[i]
        },
{
    proof {
        reply_is_searched_to_the_end(reply@, activity_id@);
    }
    let elements = match reply.items_at("elements") {
        Some(elements) => elements,
        None => {
            return None;
        },
    };
    let ghost all = models(elements@);
    for i in 0..elements.len()
        invariant
            all == models(elements@),
            reply@.items_at("elements"@) == Some(all),
            first_match(all.take(i as int), activity_id@) is None,
    {
        assert(all.take(i + 1).drop_last() == all.take(i as int));
        assert(all.take(i + 1).last() == elements@[i as int]@);
        if element_matches_activity_id(&elements[i], activity_id) {
            proof {
                lemma_first_match_stays(all, i + 1, activity_id@);
                reply_is_searched_to_the_end(reply@, activity_id@);
            }
            return Some(elements[i].copy());
        }
    }
    assert(all.take(all.len() as int) == all);
    None
}

/// A match among the first elements is the match among all.
proof fn lemma_first_match_stays(elements: Seq<JsonView>, len: int, id: Seq<char>)
    requires
        0 <= len <= elements.len(),
        first_match(elements.take(len), id) is Some,
    ensures
        first_match(elements, id) == first_match(elements.take(len), id),
    decreases elements.len(),
{
    if len == elements.len() {
        assert(elements.take(len) == elements);
    } else {
        assert(elements.drop_last().take(len) == elements.take(len));
        lemma_first_match_stays(elements.drop_last(), len, id);
    }
}

/// The kinds of update that are tried one after the other.
pub open spec fn update_types() -> Seq<Seq<char>> {
    seq!["SHARE"@, "ARTICLE"@, "VIDEO"@, "IMAGE"@]
}

/// The path that shows a post with the given URN, were it an update of the
/// given type.
pub open spec fn highlighted_path(urn: Seq<char>, update_type: Seq<char>) -> Seq<char> {
    "feed/updates?q=highlightedFeed&highlightedUpdateUrns=List("@ + replaced(urn, ':', "%3A"@)
        + ")&highlightedUpdateTypes=List("@ + update_type + ")"@
}

/// The message that a post was not found.
pub open spec fn not_found_message(urn: Seq<char>) -> Seq<char> {
    "post "@ + urn
        + " not in the top-50 feed window and the highlightedFeed fallback returned no match. The permalink endpoint shape is unverified; capture the request from https://www.linkedin.com/feed/update/"@
        + urn
        + " in browser devtools and update get_post() with the captured path."@
}

/// The search for one post: first among the latest updates, then among the
/// highlighted updates of each type.
#[derive(Debug, PartialEq, Eq)]
pub struct PostLookup {
    urn: String,
    activity_id: String,
    attempt: usize,
}

/// The model of a [`PostLookup`].
pub ghost struct PostLookupView {
    pub urn: Seq<char>,
    pub activity_id: Seq<char>,
    /// How many of the update types have been asked for.
    pub attempt: nat,
}

impl View for PostLookup {
    type V = PostLookupView;

    closed spec fn view(&self) -> PostLookupView {
        PostLookupView {
            urn: self.urn@,
            activity_id: self.activity_id@,
            attempt: self.attempt as nat,
        }
    }
}

/// What follows from a reply.
#[derive(Debug, PartialEq, Eq)]
pub enum LookupStep {
    /// The path to ask for next.
    Get(String),
    /// The post.
    Found(Json),
    /// There is no such post.
    Missing(Error),
    /// The failure of the request is the result.
    PassOn,
}

/// The model of a [`LookupStep`].
pub ghost enum LookupStepView {
    Get(Seq<char>),
    Found(JsonView),
    Missing(ErrorView),
    PassOn,
}

impl View for LookupStep {
    type V = LookupStepView;

    open spec fn view(&self) -> LookupStepView {
        match self {
            LookupStep::Get(path) => LookupStepView::Get(path@),
            LookupStep::Found(post) => LookupStepView::Found(post@),
            LookupStep::Missing(error) => LookupStepView::Missing(error@),
            LookupStep::PassOn => LookupStepView::PassOn,
        }
    }
}

impl PostLookupView {
    /// No more update types have been asked for than there are.
    pub open spec fn wf(self) -> bool {
        self.attempt <= update_types().len()
    }

    /// What follows from a reply, which is `None` where the request failed.
    /// Only the failure of the first request counts.
    pub open spec fn step(self, reply: Option<JsonView>) -> LookupStepView {
        let found = match reply {
            Some(reply) => post_in(reply, self.activity_id),
            None => None,
        };
        if found is Some {
            LookupStepView::Found(found->0)
        } else if reply is None && self.attempt == 0 {
            LookupStepView::PassOn
        } else if self.attempt < update_types().len() {
            LookupStepView::Get(highlighted_path(self.urn, update_types()[self.attempt as int]))
        } else {
            LookupStepView::Missing(ErrorView::api(404, not_found_message(self.urn)))
        }
    }

    /// The search after a reply.
    pub open spec fn after(self, reply: Option<JsonView>) -> PostLookupView {
        if self.step(reply) is Get {
            PostLookupView { attempt: self.attempt + 1, ..self }
        } else {
            self
        }
    }
}

/// The search before the first request.
pub open spec fn post_lookup(urn: Seq<char>, activity_id: Seq<char>) -> PostLookupView {
    PostLookupView { urn, activity_id, attempt: 0 }
}

impl LinkedInClient {
    /// Starts the search for a post. Returns the search and the path to ask
    /// for first: the latest updates of the feed.
    pub fn get_post(&self, activity_urn: &ActivityUrn) -> (start: (PostLookup, String))
        ensures
            start.0@ == post_lookup(activity_urn.urn@, activity_urn.activity_id@),
            start.0@.wf(),
            start.1@ == feed_path(0, 50),
    {
        let lookup = PostLookup {
            urn: activity_urn.urn.clone(),
            activity_id: activity_urn.activity_id.clone(),
            attempt: 0,
        };
        (lookup, self.get_feed(0, 50))
    }
}

/// The update type that is asked for in the given attempt.
fn update_type(attempt: usize) -> (update_type: &'static str)
    requires
        attempt < update_types().len(),
    ensures
        update_type@ == update_types()[attempt as int],
{
    match attempt {
        0 => "SHARE",
        1 => "ARTICLE",
        2 => "VIDEO",
        _ => "IMAGE",
    }
}

impl PostLookup {
    /// Takes a reply, which is `None` where the request failed, and says what
    /// follows.
    pub fn reply(&mut self, reply: Option<&Json>) -> (step: LookupStep)
        requires
            old(self)@.wf(),
        ensures
            step@ == old(self)@.step(model_if_lent(reply)),
            final(self)@ == old(self)@.after(model_if_lent(reply)),
            final(self)@.wf(),
    {
        match reply {
            Some(reply) => {
                if let Some(found) = find_post_in_feed(reply, self.activity_id.as_str()) {
                    return LookupStep::Found(found);
                }
            },
            None => {
                if self.attempt == 0 {
                    return LookupStep::PassOn;
                }
            },
        }
        if self.attempt < 4 {
            let path = "feed/updates?q=highlightedFeed&highlightedUpdateUrns=List(".to_owned()
                .concat(replace(self.urn.as_str(), ':', "%3A").as_str())
                .concat(")&highlightedUpdateTypes=List(")
                .concat(update_type(self.attempt))
                .concat(")");
            self.attempt = self.attempt + 1;
            return LookupStep::Get(path);
        }
        let message = "post ".to_owned()
            .concat(self.urn.as_str())
            .concat(" not in the top-50 feed window and the highlightedFeed fallback returned no match. The permalink endpoint shape is unverified; capture the request from https://www.linkedin.com/feed/update/")
            .concat(self.urn.as_str())
            .concat(" in browser devtools and update get_post() with the captured path.");
        LookupStep::Missing(Error::api(404, message))
    }
}

}
