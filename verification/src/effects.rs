//! What each operation comes to: what its requests say and what its results
//! hold, stated on the inputs, for all of them.

use vstd::prelude::*;

use crate::client::ClientView;
use crate::comments::{comment, comments_query, replies_query, single_comment_query};
use crate::error::{Error, ErrorView, outcome};
use crate::feed::{
    LookupStepView, PostLookupView, carries_activity_id, feed_path, first_match, metadata_carries,
    my_posts_path, post_in, post_lookup, slot_carries,
};
use crate::json::{
    Field, Json, JsonView, field_models, lemma_array_model, lemma_entry_field, lemma_object_model,
    lemma_position_of, lemma_with_field, models, object, position_of, with_field,
};
use crate::laws::{
    address_and_body_name_one_query, byte_range_reads_back, collected,
    empty_range_is_the_whole_file, in_order, lemma_last_piece, lemma_no_plus,
    lemma_precedes_irreflexive, numeral_reads_back, order_keeps_fields, search_finds_the_first,
};
use crate::media::{byte_range, media_payload, media_type, status_type_of};
use crate::order::{ordered, precedes, put};
use crate::print::{
    all_escaped, escaped, field_texts, joined, json_text, json_texts, members,
};
use crate::reactions::{
    ReactionPagerView, checked_reaction, checked_reaction_mutation, checked_unreaction_mutation,
    joined as listed, page_elements, page_total, pager, reaction_types,
};
use crate::request::{BodyView, Header, HttpRequestView, Method, header_models, success};
use crate::share::{
    ShareInput, checked_share_request, delete_request, deletion_result, is_ready, share_key,
    share_params, share_request,
};
use crate::text::{
    all_digits, ascii_lower, ascii_upper, capital, decimal, digit_char, digits_value, is_digit,
    numeral_value, occurs_at, occurs_in, replaced, split_on, usize_value, without_prefix,
};
use crate::upload::{
    MediaFileView, MediaWaitView, MultipartUploadView, ReplyHeader, SingleUploadView,
    UploadPlanView, WaitStepView, accepted_file, headers_object, listed_headers, media_wait,
    metadata_request, part_range, part_response, part_url, reply_header_models, text_fields,
    upload_headers, upload_identity, upload_plan, value_of_metadata, verdict,
};

verus! {

broadcast proof fn entry_reads(json: JsonView, key: Seq<char>, value: JsonView, other: Seq<char>)
    requires
        json is Object,
    ensures
        #[trigger] json.entry(key, value).field(other) == if other == key {
            Some(value)
        } else {
            json.field(other)
        },
{
    lemma_entry_field(json, key, value, other);
}

// ---------------------------------------------------------------------------
// JSON

/// The field of an object is the value of the last entry with its name; an
/// object has the fields that it lists and no others, and nothing else has any.
pub proof fn field_is_the_last_of_its_name(json: JsonView, key: Seq<char>)
    ensures
        json !is Object ==> json.field(key) is None,
        json matches JsonView::Object(fields) ==> {
            &&& json.field(key) is None <==> forall|i: int|
                0 <= i < fields.len() ==> (#[trigger] fields[i]).0 != key
            &&& forall|i: int|
                0 <= i < fields.len() && (#[trigger] fields[i]).0 == key && (forall|j: int|
                    i < j < fields.len() ==> (#[trigger] fields[j]).0 != key) ==> json.field(key)
                    == Some(fields[i].1)
        },
{
    if let JsonView::Object(fields) = json {
        lemma_position_of(fields, key);
    }
}

/// A field reads as a string, a list, a number or a truth value exactly where
/// it is one, and then as that one.
pub proof fn fields_read_as_what_they_are(json: JsonView, key: Seq<char>)
    ensures
        json.text_at(key) == match json.field(key) {
            Some(JsonView::Text(s)) => Some(s),
            _ => None,
        },
        json.items_at(key) == match json.field(key) {
            Some(JsonView::Array(items)) => Some(items),
            _ => None,
        },
        json.unsigned_at(key) == match json.field(key) {
            Some(JsonView::Unsigned(n)) => Some(n),
            Some(JsonView::Signed(n)) => if n < 0 {
                None
            } else {
                Some(n as u64)
            },
            _ => None,
        },
        json.boolean() == match json {
            JsonView::Bool(b) => Some(b),
            _ => None,
        },
{
}

/// The model of a value has all that the value has: each item of a list and
/// each field of an object, in place.
pub proof fn models_keep_everything(items: Vec<Json>, fields: Vec<Field>)
    ensures
        models(items@).len() == items@.len(),
        forall|i: int| 0 <= i < items@.len() ==> (#[trigger] models(items@)[i]) == items@[i]@,
        Json::Array(items)@ == JsonView::Array(models(items@)),
        field_models(fields@).len() == fields@.len(),
        forall|i: int|
            0 <= i < fields@.len() ==> (#[trigger] field_models(fields@)[i]) == (
                fields@[i].name@,
                fields@[i].value@,
            ),
        Json::Object(fields)@ == JsonView::Object(field_models(fields@)),
{
    lemma_array_model(items);
    lemma_object_model(fields);
}

/// The model of a plain value is that value.
pub proof fn models_of_plain_values(b: bool, n: u64, m: i64, s: String)
    ensures
        Json::Null@ == JsonView::Null,
        Json::Bool(b)@ == JsonView::Bool(b),
        Json::Unsigned(n)@ == JsonView::Unsigned(n),
        Json::Signed(m)@ == JsonView::Signed(m),
        Json::Float(s)@ == JsonView::Float(s@),
        Json::Text(s)@ == JsonView::Text(s@),
        JsonView::integer(m as int).unsigned() == if m >= 0 {
            Some(m as u64)
        } else {
            None
        },
        m < 0 ==> JsonView::integer(m as int) == JsonView::Signed(m),
{
}

/// A result succeeds in the model exactly where it does, with the value it has;
/// a failure says in the model what it says.
pub proof fn outcomes_are_what_happened(result: Result<Json, Error>, status: u16, body: Seq<char>)
    ensures
        result is Ok ==> outcome(result) == Ok::<_, ErrorView>(result->Ok_0@),
        result is Err ==> outcome(result) == Err::<JsonView, _>(result->Err_0@),
        ErrorView::api(status, body) == (ErrorView::Api { status, body, correlation_id: None }),
{
}

/// An object with a field set has that value there and the other fields as
/// before, in their places; no field is lost.
pub proof fn set_field_keeps_the_rest(
    fields: Seq<(Seq<char>, JsonView)>,
    key: Seq<char>,
    value: JsonView,
    other: Seq<char>,
)
    ensures
        JsonView::Object(fields).with(key, value).field(key) == Some(value),
        other != key ==> JsonView::Object(fields).with(key, value).field(other)
            == JsonView::Object(fields).field(other),
        with_field(fields, key, value).len() == if JsonView::Object(fields).field(key) is Some {
            fields.len()
        } else {
            fields.len() + 1
        },
        JsonView::Null.with(key, value) == JsonView::Object(seq![(key, value)]),
{
    lemma_with_field(JsonView::Object(fields), key, value, key);
    lemma_with_field(JsonView::Object(fields), key, value, other);
    lemma_position_of(fields, key);
    assert(object().entry(key, value)->Object_0 == seq![(key, value)]);
}

// ---------------------------------------------------------------------------
// Text

/// A string occurs in another exactly where that one is some text, the string,
/// and some more text.
pub proof fn occurrence_is_a_middle(needle: Seq<char>, hay: Seq<char>)
    ensures
        occurs_in(needle, hay) <==> exists|before: Seq<char>, after: Seq<char>|
            hay == #[trigger] (before + needle + after),
{
    if occurs_in(needle, hay) {
        let at = choose|at: int| occurs_at(needle, hay, at);
        let before = hay.take(at);
        let after = hay.skip(at + needle.len());
        assert(hay == before + needle + after);
    }
    if exists|before: Seq<char>, after: Seq<char>| hay == #[trigger] (before + needle + after) {
        let (before, after) = choose|before: Seq<char>, after: Seq<char>|
            hay == #[trigger] (before + needle + after);
        let at = before.len() as int;
        assert(hay.subrange(at, at + needle.len()) == needle);
        assert(occurs_at(needle, hay, at));
    }
}

/// Pieces put back together, with the separator between them.
pub open spec fn rejoined(pieces: Seq<Seq<char>>, separator: char) -> Seq<char>
    decreases pieces.len(),
{
    if pieces.len() == 0 {
        Seq::empty()
    } else if pieces.len() == 1 {
        pieces[0]
    } else {
        rejoined(pieces.drop_last(), separator).push(separator) + pieces.last()
    }
}

/// The pieces of a split hold no separator, and put back together they are the
/// string.
pub proof fn split_takes_apart(s: Seq<char>, separator: char)
    ensures
        split_on(s, separator).len() > 0,
        rejoined(split_on(s, separator), separator) == s,
        forall|i: int|
            0 <= i < split_on(s, separator).len() ==> !(#[trigger] split_on(
                s,
                separator,
            )[i]).contains(separator),
    decreases s.len(),
{
    let pieces = split_on(s, separator);
    if s.len() > 0 {
        let front = s.drop_last();
        let before = split_on(front, separator);
        split_takes_apart(front, separator);
        assert(front.push(s.last()) == s);
        if s.last() == separator {
            assert(pieces.drop_last() == before);
            assert(rejoined(pieces, separator) == s);
        } else {
            let last = before.last().push(s.last());
            assert(pieces.drop_last() == before.drop_last());
            assert(pieces.last() == last);
            assert(!before[before.len() - 1].contains(separator));
            assert(!last.contains(separator)) by {
                assert forall|i: int| 0 <= i < last.len() implies last[i] != separator by {
                    if i < before.last().len() {
                        assert(before.last()[i] == last[i]);
                        assert(before.last().contains(before.last()[i]));
                    }
                }
            }
            if before.len() == 1 {
                assert(rejoined(pieces, separator) == s);
            } else {
                let head = rejoined(before.drop_last(), separator).push(separator);
                assert(head + last == (head + before.last()).push(s.last()));
            }
            assert forall|i: int| 0 <= i < pieces.len() implies !(
            #[trigger] pieces[i]).contains(separator) by {
                if i < before.len() - 1 {
                    assert(pieces[i] == before[i]);
                }
            }
        }
    } else {
        assert(s == Seq::<char>::empty());
    }
}

/// A prefix that is there is taken off, all else stays; without the prefix the
/// string stays.
pub proof fn prefix_comes_off(prefix: Seq<char>, rest: Seq<char>, s: Seq<char>)
    ensures
        without_prefix(prefix + rest, prefix) == rest,
        without_prefix(s, prefix) == s || s == prefix + without_prefix(s, prefix),
        (forall|tail: Seq<char>| s != #[trigger] (prefix + tail)) ==> without_prefix(s, prefix)
            == s,
{
    assert((prefix + rest).subrange(0, prefix.len() as int) == prefix);
    assert((prefix + rest).skip(prefix.len() as int) == rest);
    if prefix.is_prefix_of(s) {
        let tail = s.skip(prefix.len() as int);
        assert(s.subrange(0, prefix.len() as int) == prefix);
        assert(s == prefix + tail);
    }
}

/// Each occurrence of the character is replaced, and nothing else.
pub proof fn replacement_goes_through(a: Seq<char>, b: Seq<char>, from: char, to: Seq<char>)
    ensures
        replaced(a + b, from, to) == replaced(a, from, to) + replaced(b, from, to),
        !a.contains(from) ==> replaced(a, from, to) == a,
        replaced(seq![from], from, to) == to,
    decreases a.len() + b.len(),
{
    assert(seq![from].drop_last() == Seq::<char>::empty());
    assert(replaced(Seq::<char>::empty(), from, to) == Seq::<char>::empty());
    assert(replaced(seq![from], from, to) == to);
    if b.len() > 0 {
        replacement_goes_through(a, b.drop_last(), from, to);
        assert((a + b).drop_last() == a + b.drop_last());
        assert(replaced(a + b, from, to) == replaced(a, from, to) + replaced(b, from, to));
    } else {
        assert(a + b == a);
        assert(replaced(a + b, from, to) == replaced(a, from, to) + replaced(b, from, to));
        if a.len() > 0 && !a.contains(from) {
            let front = a.drop_last();
            assert forall|i: int| 0 <= i < front.len() implies front[i] != from by {
                assert(a[i] == front[i]);
                assert(a.contains(a[i]));
            }
            replacement_goes_through(front, b, from, to);
            assert(a.contains(a.last()));
            assert(front.push(a.last()) == a);
        } else {
            assert(a.len() == 0 ==> a == Seq::<char>::empty());
        }
    }
}

/// Changing the letter case changes ASCII letters one for one and leaves all
/// else; a string of capital letters, digits and signs stays in capitals.
pub proof fn letter_case_is_changed_in_place(s: Seq<char>, i: int)
    requires
        0 <= i < s.len(),
    ensures
        ascii_lower(s).len() == s.len(),
        ascii_upper(s).len() == s.len(),
        ascii_lower(s)[i] == if 'A' <= s[i] <= 'Z' {
            (s[i] as u32 + 32) as char
        } else {
            s[i]
        },
        ascii_upper(s)[i] == if 'a' <= s[i] <= 'z' {
            (s[i] as u32 - 32) as char
        } else {
            s[i]
        },
        (forall|j: int| 0 <= j < s.len() ==> (#[trigger] s[j] as u32) < 128) ==> capital(s)
            == ascii_upper(s),
{
}

/// Exactly the statuses from 200 to 299 report success.
pub proof fn success_is_a_status_in_the_two_hundreds(status: u16)
    ensures
        success(status) <==> status / 100 == 2,
{
}

/// The URL of a path is the origin, the prefix of the API, and the path.
pub proof fn urls_lead_into_the_api(client: ClientView, path: Seq<char>, more: Seq<char>)
    ensures
        client.url(Seq::empty()) == client.base_url + client.api_prefix,
        client.url(path + more) == client.url(path) + more,
{
    assert(client.url(Seq::empty()) == client.base_url + client.api_prefix);
    assert(client.url(path + more) == client.url(path) + more);
}

/// Whether a string is a numeral of a number.
pub open spec fn is_numeral(s: Seq<char>, n: nat) -> bool {
    numeral_value(s) == Some(n)
}

/// The numeral that stands in a request reads back as its number, holds digits
/// only, and has no zeros in front.
pub proof fn numerals_are_digits(n: nat)
    ensures
        is_numeral(decimal(n), n),
        all_digits(decimal(n)),
        decimal(n).len() > 0,
        n > 0 ==> decimal(n)[0] != '0',
    decreases n,
{
    numeral_reads_back(n);
    if n >= 10 {
        numerals_are_digits(n / 10);
        let front = decimal(n / 10);
        assert forall|i: int| 0 <= i < decimal(n).len() implies is_digit(
            #[trigger] decimal(n)[i],
        ) by {
            if i < front.len() {
                assert(decimal(n)[i] == front[i]);
            }
        }
        assert(decimal(n)[0] == front[0]);
    } else {
        assert(decimal(n) == seq![digit_char(n)]);
    }
}

// ---------------------------------------------------------------------------
// The feed and the search for a post

/// The path of a page of the feed says where the page starts and how long it
/// is; so does the path of a member's posts, which also names the member.
pub proof fn pages_are_asked_for_by_number(encoded_urn: Seq<char>, start: u32, count: u32)
    ensures
        exists|from: Seq<char>, many: Seq<char>|
            {
                &&& #[trigger] is_numeral(from, start as nat)
                &&& #[trigger] is_numeral(many, count as nat)
                &&& feed_path(start, count) == "feed/updates?q=findFeed&start="@ + from
                    + "&count="@ + many
                &&& my_posts_path(encoded_urn, start, count)
                    == "identity/profileUpdatesV2?q=memberShareFeed&profileUrn="@ + encoded_urn
                    + "&moduleKey=member-shares%3Aphone&start="@ + from + "&count="@ + many
            },
{
    numerals_are_digits(start as nat);
    numerals_are_digits(count as nat);
    assert(is_numeral(decimal(start as nat), start as nat));
    assert(is_numeral(decimal(count as nat), count as nat));
}

/// Whether a string that may be missing has the identifier in it.
pub open spec fn names(text: Option<Seq<char>>, id: Seq<char>) -> bool {
    text is Some && exists|before: Seq<char>, after: Seq<char>|
        text->0 == #[trigger] (before + id + after)
}

/// An element of the feed is the post exactly where its own URN has the
/// identifier in it, or where one of the two URNs in its metadata has. The
/// metadata are those of the rendered update, or else those of the element.
pub proof fn post_is_known_by_its_urns(element: JsonView, id: Seq<char>)
    ensures
        ({
            let own = names(element.text_at("entityUrn"@), id);
            let update = match element.field("value"@) {
                Some(value) => value.field("com.linkedin.voyager.feed.render.UpdateV2"@),
                None => None,
            };
            let rendered = match update {
                Some(update) => update.field("updateMetadata"@),
                None => None,
            };
            let plain = element.field("updateMetadata"@);
            &&& rendered matches Some(metadata) ==> (carries_activity_id(element, id) <==> own
                || names(metadata.text_at("urn"@), id) || names(metadata.text_at("shareUrn"@), id))
            &&& rendered is None && plain is Some ==> (carries_activity_id(element, id) <==> own
                || names(plain->0.text_at("urn"@), id) || names(
                plain->0.text_at("shareUrn"@),
                id,
            ))
            &&& rendered is None && plain is None ==> (carries_activity_id(element, id) <==> own)
        }),
{
    assert forall|text: Option<Seq<char>>| #[trigger] names(text, id) == (text is Some
        && occurs_in(id, text->0)) by {
        if text is Some {
            occurrence_is_a_middle(id, text->0);
        }
    }
}

/// Metadata are those of the post exactly where one of their two URNs has the
/// identifier in it.
pub proof fn metadata_are_known_by_their_urns(metadata: JsonView, id: Seq<char>, slot: Seq<char>)
    ensures
        slot_carries(metadata, slot, id) <==> names(metadata.text_at(slot), id),
        metadata_carries(metadata, id) <==> names(metadata.text_at("urn"@), id) || names(
            metadata.text_at("shareUrn"@),
            id,
        ),
{
    assert forall|text: Option<Seq<char>>| #[trigger] names(text, id) == (text is Some
        && occurs_in(id, text->0)) by {
        if text is Some {
            occurrence_is_a_middle(id, text->0);
        }
    }
}

/// What is found in a reply is the first of all its elements that is the post,
/// wherever it stands, and nothing is found exactly where none of them is.
pub proof fn reply_is_searched_to_the_end(reply: JsonView, id: Seq<char>)
    ensures
        reply.items_at("elements"@) is None ==> post_in(reply, id) is None,
        reply.items_at("elements"@) matches Some(elements) ==> {
            &&& post_in(reply, id) is None <==> forall|i: int|
                0 <= i < elements.len() ==> !carries_activity_id(#[trigger] elements[i], id)
            &&& forall|i: int|
                {
                    &&& 0 <= i < elements.len()
                    &&& carries_activity_id(#[trigger] elements[i], id)
                    &&& forall|j: int|
                        0 <= j < i ==> !carries_activity_id(#[trigger] elements[j], id)
                } ==> post_in(reply, id) == Some(elements[i])
        },
{
    if let Some(elements) = reply.items_at("elements"@) {
        search_finds_the_first(elements, id);
        assert forall|i: int|
            {
                &&& 0 <= i < elements.len()
                &&& carries_activity_id(#[trigger] elements[i], id)
                &&& forall|j: int| 0 <= j < i ==> !carries_activity_id(#[trigger] elements[j], id)
            } implies post_in(reply, id) == Some(elements[i]) by {
            let k = choose|k: int|
                {
                    &&& 0 <= k < elements.len()
                    &&& first_match(elements, id) == Some(#[trigger] elements[k])
                    &&& carries_activity_id(elements[k], id)
                    &&& forall|j: int|
                        0 <= j < k ==> !carries_activity_id(#[trigger] elements[j], id)
                };
            assert(k == i);
        }
    }
}

/// The post is found at any place in a reply, at any stage of the search, and
/// that ends the search.
pub proof fn post_in_a_reply_is_found(
    urn: Seq<char>,
    activity_id: Seq<char>,
    attempt: nat,
    reply: JsonView,
    elements: Seq<JsonView>,
    at: int,
)
    requires
        reply.items_at("elements"@) == Some(elements),
        0 <= at < elements.len(),
        carries_activity_id(elements[at], activity_id),
        forall|i: int| 0 <= i < at ==> !carries_activity_id(#[trigger] elements[i], activity_id),
    ensures
        (PostLookupView { urn, activity_id, attempt }).step(Some(reply)) == LookupStepView::Found(
            elements[at],
        ),
{
    reply_is_searched_to_the_end(reply, activity_id);
}

/// A search that has not found the post asks for it as a share, an article, a
/// video and an image, in this order, one for each reply; then it says that
/// there is none. The failure of the first request, and of no other, is passed
/// on.
pub proof fn fruitless_search_goes_on(
    urn: Seq<char>,
    activity_id: Seq<char>,
    attempt: nat,
    reply: Option<JsonView>,
)
    requires
        attempt <= 4,
        reply matches Some(reply) ==> (reply.items_at("elements"@) matches Some(elements)
            ==> forall|i: int|
            0 <= i < elements.len() ==> !carries_activity_id(#[trigger] elements[i], activity_id)),
    ensures
        ({
            let lookup = PostLookupView { urn, activity_id, attempt };
            let path = |kind: Seq<char>|
                LookupStepView::Get(
                    "feed/updates?q=highlightedFeed&highlightedUpdateUrns=List("@ + replaced(
                        urn,
                        ':',
                        "%3A"@,
                    ) + ")&highlightedUpdateTypes=List("@ + kind + ")"@,
                );
            &&& attempt == 0 && reply is None ==> lookup.step(reply) == LookupStepView::PassOn
            &&& attempt == 0 && reply is Some ==> lookup.step(reply) == path("SHARE"@)
            &&& attempt == 1 ==> lookup.step(reply) == path("ARTICLE"@)
            &&& attempt == 2 ==> lookup.step(reply) == path("VIDEO"@)
            &&& attempt == 3 ==> lookup.step(reply) == path("IMAGE"@)
            &&& attempt == 4 ==> lookup.step(reply) == LookupStepView::Missing(
                ErrorView::Api {
                    status: 404,
                    body: "post "@ + urn
                        + " not in the top-50 feed window and the highlightedFeed fallback returned no match. The permalink endpoint shape is unverified; capture the request from https://www.linkedin.com/feed/update/"@
                        + urn
                        + " in browser devtools and update get_post() with the captured path."@,
                    correlation_id: None,
                },
            )
            &&& lookup.wf() && lookup.after(reply).wf()
            &&& lookup.after(reply).urn == urn
            &&& lookup.after(reply).activity_id == activity_id
            &&& lookup.step(reply) is Get ==> lookup.after(reply).attempt == attempt + 1
            &&& post_lookup(urn, activity_id) == (PostLookupView { urn, activity_id, attempt: 0 })
        }),
{
    if let Some(reply) = reply {
        reply_is_searched_to_the_end(reply, activity_id);
    }
}

// ---------------------------------------------------------------------------
// Reactions

/// The seven reactions.
pub open spec fn is_reaction(reaction_type: Seq<char>) -> bool {
    ||| reaction_type == "LIKE"@
    ||| reaction_type == "PRAISE"@
    ||| reaction_type == "EMPATHY"@
    ||| reaction_type == "INTEREST"@
    ||| reaction_type == "APPRECIATION"@
    ||| reaction_type == "ENTERTAINMENT"@
    ||| reaction_type == "CELEBRATION"@
}

proof fn lemma_reaction_types(reaction_type: Seq<char>)
    ensures
        reaction_types().contains(reaction_type) <==> is_reaction(reaction_type),
{
    let types = reaction_types();
    assert(types[0] == "LIKE"@ && types[1] == "PRAISE"@ && types[2] == "EMPATHY"@ && types[3]
        == "INTEREST"@ && types[4] == "APPRECIATION"@ && types[5] == "ENTERTAINMENT"@ && types[6]
        == "CELEBRATION"@ && types.len() == 7);
}

/// A reaction type is accepted exactly where it is one of the seven, and as
/// that one; the refusal names what was given and lists the seven.
pub proof fn reactions_are_checked(reaction_type: Seq<char>, upper: Seq<char>)
    ensures
        is_reaction(upper) ==> checked_reaction(reaction_type, upper) == Ok::<_, ErrorView>(upper),
        !is_reaction(upper) ==> checked_reaction(reaction_type, upper) == Err::<Seq<char>, _>(
            ErrorView::InvalidInput(
                "invalid reaction type '"@ + reaction_type + "'. Valid types: "@
                    + "LIKE, PRAISE, EMPATHY, INTEREST, APPRECIATION, ENTERTAINMENT, CELEBRATION"@,
            ),
        ),
{
    lemma_reaction_types(upper);
    lemma_reactions_listed();
}

proof fn lemma_reactions_listed()
    ensures
        listed(reaction_types(), ", "@)
            == "LIKE, PRAISE, EMPATHY, INTEREST, APPRECIATION, ENTERTAINMENT, CELEBRATION"@,
{
    let types = reaction_types();
    let six = types.drop_last();
    let five = six.drop_last();
    let four = five.drop_last();
    let three = four.drop_last();
    let two = three.drop_last();
    let one = two.drop_last();
    assert(one.len() == 1 && one[0] == "LIKE"@);
    assert(listed(one, ", "@) == "LIKE"@);
    assert(two.last() == "PRAISE"@ && three.last() == "EMPATHY"@ && four.last() == "INTEREST"@);
    assert(five.last() == "APPRECIATION"@ && six.last() == "ENTERTAINMENT"@ && types.last()
        == "CELEBRATION"@);
    reveal_strlit("LIKE");
    reveal_strlit("PRAISE");
    reveal_strlit("EMPATHY");
    reveal_strlit("INTEREST");
    reveal_strlit("APPRECIATION");
    reveal_strlit("ENTERTAINMENT");
    reveal_strlit("CELEBRATION");
    reveal_strlit(", ");
    reveal_strlit("LIKE, PRAISE, EMPATHY, INTEREST, APPRECIATION, ENTERTAINMENT, CELEBRATION");
    assert(listed(two, ", "@) == "LIKE"@ + ", "@ + "PRAISE"@);
    assert(listed(three, ", "@) == listed(two, ", "@) + ", "@ + "EMPATHY"@);
    assert(listed(four, ", "@) == listed(three, ", "@) + ", "@ + "INTEREST"@);
    assert(listed(five, ", "@) == listed(four, ", "@) + ", "@ + "APPRECIATION"@);
    assert(listed(six, ", "@) == listed(five, ", "@) + ", "@ + "ENTERTAINMENT"@);
    assert(listed(types, ", "@) == listed(six, ", "@) + ", "@ + "CELEBRATION"@);
    assert(listed(types, ", "@)
        == "LIKE, PRAISE, EMPATHY, INTEREST, APPRECIATION, ENTERTAINMENT, CELEBRATION"@);
}

/// A reaction that is given says which one it is and to which thread, each on
/// the top level and inside `entity`, as the caller named them; one that is
/// taken back says so once. The two are different mutations.
pub proof fn reaction_is_sent_as_given(
    thread: Seq<char>,
    reaction_type: Seq<char>,
    upper: Seq<char>,
)
    ensures
        checked_reaction_mutation(thread, reaction_type, upper) is Ok <==> is_reaction(upper),
        checked_unreaction_mutation(thread, reaction_type, upper) is Ok <==> is_reaction(upper),
        !is_reaction(upper) ==> {
            let refusal = checked_reaction(reaction_type, upper)->Err_0;
            &&& checked_reaction_mutation(thread, reaction_type, upper)->Err_0 == refusal
            &&& checked_unreaction_mutation(thread, reaction_type, upper)->Err_0 == refusal
        },
        is_reaction(upper) ==> {
            let given = checked_reaction_mutation(thread, reaction_type, upper)->Ok_0;
            let taken = checked_unreaction_mutation(thread, reaction_type, upper)->Ok_0;
            &&& given.variables.text_at("threadUrn"@) == Some(thread)
            &&& given.variables.text_at("reactionType"@) == Some(upper)
            &&& given.variables.field("entity"@) is Some
            &&& given.variables.field("entity"@)->0.text_at("threadUrn"@) == Some(thread)
            &&& given.variables.field("entity"@)->0.text_at("reactionType"@) == Some(upper)
            &&& given.query_id == "voyagerSocialDashReactions.fd68eadaf15da416b0d839e21399b763"@
            &&& given.query_name == "CreateSocialDashReactions"@
            &&& taken.variables.text_at("threadUrn"@) == Some(thread)
            &&& taken.variables.text_at("reactionType"@) == Some(upper)
            &&& taken.variables.field("entity"@) is None
            &&& taken.query_id == "voyagerSocialDashReactions.315cef4773de8e3a0ddad7655cc1685f"@
            &&& taken.query_name == "DoDeleteReactionSocialDashReactions"@
        },
{
    broadcast use entry_reads;

    reactions_are_checked(reaction_type, upper);
    reveal_strlit("threadUrn");
    reveal_strlit("reactionType");
    reveal_strlit("entity");
    assert("threadUrn"@.len() == 9 && "reactionType"@.len() == 12 && "entity"@.len() == 6);
}

/// The reactors on a page are all items of its list, and the total is the one
/// that it tells.
pub proof fn page_is_read_whole(page: JsonView)
    ensures
        page.items_at("elements"@) matches Some(elements) ==> page_elements(page) == elements,
        page.items_at("elements"@) is None ==> page_elements(page).len() == 0,
        page.field("paging"@) matches Some(paging) ==> page_total(page) == paging.unsigned_at(
            "total"@,
        ),
        page.field("paging"@) is None ==> page_total(page) is None,
{
}

/// How many reactors are still to be asked for at once: those that are missing,
/// but ten at most.
pub open spec fn missing_at_once(reactions: ReactionPagerView) -> int {
    let missing = reactions.count - reactions.elements.len();
    if missing < 10 {
        missing
    } else {
        10
    }
}

/// As long as the collection is not over and reactors are missing, the next
/// request asks for them, ten at most, from where the pages so far end.
pub proof fn missing_reactors_are_asked_for(reactions: ReactionPagerView)
    requires
        reactions.wf(),
    ensures
        reactions.finished || reactions.elements.len() == reactions.count
            ==> reactions.next_request() is None,
        !reactions.finished && reactions.elements.len() < reactions.count ==> exists|
            many: Seq<char>,
            from: Seq<char>,
        |
            {
                &&& #[trigger] is_numeral(many, missing_at_once(reactions) as nat)
                &&& #[trigger] is_numeral(from, reactions.next_start as nat)
                &&& reactions.next_request() == Some(
                    "variables=(count:"@ + many + ",start:"@ + from + ",threadUrn:"@
                        + reactions.encoded_urn
                        + ")&queryId=voyagerSocialDashReactions.41ebf31a9f4c4a84e35a49d5abc9010b"@,
                )
            },
{
    if !reactions.finished && reactions.elements.len() < reactions.count {
        numerals_are_digits(missing_at_once(reactions) as nat);
        numerals_are_digits(reactions.next_start as nat);
        assert(is_numeral(
            decimal(missing_at_once(reactions) as nat),
            missing_at_once(reactions) as nat,
        ));
        assert(is_numeral(decimal(reactions.next_start as nat), reactions.next_start as nat));
        assert(reactions.batch() == missing_at_once(reactions));
    }
}

/// The collection starts where the caller wants it to, with nobody in it.
pub proof fn collection_starts_empty(encoded_urn: Seq<char>, start: u32, count: u32)
    ensures
        pager(encoded_urn, start, count).encoded_urn == encoded_urn,
        pager(encoded_urn, start, count).start == start,
        pager(encoded_urn, start, count).count == count,
        pager(encoded_urn, start, count).next_start == start,
        pager(encoded_urn, start, count).elements.len() == 0,
        pager(encoded_urn, start, count).total is None,
        !pager(encoded_urn, start, count).finished,
        pager(encoded_urn, start, count).wf(),
{
}

/// The collection ends with an empty page or where the pages have reached the
/// total, and else goes on as long as reactors are missing. Each page adds all
/// its reactors at the end.
pub proof fn collection_goes_on_until_the_total(
    reactions: ReactionPagerView,
    page: JsonView,
    elements: Seq<JsonView>,
    total: Option<u64>,
)
    requires
        reactions.wf(),
        reactions.next_request() is Some,
        reactions.page_fits(page),
        page.items_at("elements"@) == Some(elements),
        total == match reactions.total {
            Some(total) => Some(total),
            None => match page.field("paging"@) {
                Some(paging) => paging.unsigned_at("total"@),
                None => None,
            },
        },
    ensures
        ({
            let after = reactions.with_page(page);
            let reached = reactions.next_start + missing_at_once(reactions);
            &&& after.elements == reactions.elements + elements
            &&& after.total == total
            &&& after.wf()
            &&& after.start == reactions.start && after.count == reactions.count
                && after.encoded_urn == reactions.encoded_urn
            &&& elements.len() == 0 ==> after.next_request() is None
            &&& elements.len() > 0 ==> after.next_start == reached
            &&& elements.len() > 0 && total is Some && reached >= total->0
                ==> after.next_request() is None
            &&& elements.len() > 0 && (total is None || reached < total->0)
                && after.elements.len() < reactions.count ==> after.next_request() is Some
        }),
{
    assert(reactions.batch() == missing_at_once(reactions));
}

/// Whether each page was asked for, tells the total, and holds as many reactors
/// as were asked for, as far as there are so many.
pub open spec fn service_lists_all(
    reactions: ReactionPagerView,
    pages: Seq<JsonView>,
    total: u64,
) -> bool
    decreases pages.len(),
{
    pages.len() > 0 ==> {
        let before = collected(reactions, pages.drop_last());
        let page = pages.last();
        let left = if before.next_start < total {
            total - before.next_start
        } else {
            0
        };
        &&& service_lists_all(reactions, pages.drop_last(), total)
        &&& before.next_request() is Some
        &&& page.field("paging"@) is Some
        &&& page.field("paging"@)->0.unsigned_at("total"@) == Some(total)
        &&& page.items_at("elements"@) is Some
        &&& page.items_at("elements"@)->0.len() == if left < missing_at_once(before) {
            left
        } else {
            missing_at_once(before)
        }
    }
}

/// How many reactors there are from `start` on, up to `count`.
pub open spec fn reactors_to_list(start: u32, count: u32, total: u64) -> int {
    if total <= start {
        0
    } else if total - start < count {
        total - start
    } else {
        count as int
    }
}

/// Where the service lists all there are, so does the collection: when it asks
/// for no more, it holds all reactors from the start on, up to the number
/// wanted, and it asks for more as long as it does not.
pub proof fn nobody_is_left_out(
    encoded_urn: Seq<char>,
    start: u32,
    count: u32,
    pages: Seq<JsonView>,
    total: u64,
)
    requires
        service_lists_all(pager(encoded_urn, start, count), pages, total),
        start + count <= u32::MAX,
    ensures
        ({
            let list = collected(pager(encoded_urn, start, count), pages);
            &&& list.elements.len() <= reactors_to_list(start, count, total)
            &&& pages.len() > 0 && list.next_request() is None ==> list.elements.len()
                == reactors_to_list(start, count, total)
            &&& list.elements.len() < reactors_to_list(start, count, total)
                ==> list.next_request() is Some
        }),
{
    lemma_nobody_is_left_out(encoded_urn, start, count, pages, total);
}

proof fn lemma_nobody_is_left_out(
    encoded_urn: Seq<char>,
    start: u32,
    count: u32,
    pages: Seq<JsonView>,
    total: u64,
)
    requires
        service_lists_all(pager(encoded_urn, start, count), pages, total),
        start + count <= u32::MAX,
    ensures
        ({
            let list = collected(pager(encoded_urn, start, count), pages);
            &&& list.start == start && list.count == count
            &&& list.elements.len() <= count
            &&& list.finished ==> list.elements.len() == reactors_to_list(start, count, total)
            &&& !list.finished ==> {
                &&& list.next_start == start + list.elements.len()
                &&& list.total == if pages.len() > 0 {
                    Some(total)
                } else {
                    None
                }
                &&& pages.len() > 0 ==> list.next_start < total
                &&& pages.len() == 0 ==> list.elements.len() == 0
            }
        }),
    decreases pages.len(),
{
    let first = pager(encoded_urn, start, count);
    if pages.len() > 0 {
        let before = collected(first, pages.drop_last());
        lemma_nobody_is_left_out(encoded_urn, start, count, pages.drop_last(), total);
        assert(before.batch() == missing_at_once(before));
    }
}

/// Pages of reactors bring each reactor once, in order: what the collection
/// holds is the items of all lists, one after the other.
pub proof fn every_listed_reactor_is_kept(
    encoded_urn: Seq<char>,
    start: u32,
    count: u32,
    pages: Seq<JsonView>,
    page: JsonView,
    elements: Seq<JsonView>,
    i: int,
)
    requires
        page.items_at("elements"@) == Some(elements),
        0 <= i < elements.len(),
    ensures
        ({
            let before = collected(pager(encoded_urn, start, count), pages).elements;
            let after = collected(pager(encoded_urn, start, count), pages.push(page)).elements;
            &&& after.len() == before.len() + elements.len()
            &&& after[before.len() + i] == elements[i]
            &&& forall|j: int| 0 <= j < before.len() ==> after[j] == before[j]
        }),
{
    assert(pages.push(page).drop_last() == pages);
}

/// A page that holds no more reactors than were asked for can be taken, as long
/// as the next start is a 32-bit number; so can an empty one.
pub proof fn pages_as_asked_for_fit(reactions: ReactionPagerView, page: JsonView)
    requires
        reactions.wf(),
        reactions.next_request() is Some,
        page.items_at("elements"@) matches Some(elements) ==> elements.len() == 0 || (
        elements.len() <= missing_at_once(reactions) && reactions.next_start + missing_at_once(
            reactions,
        ) <= u32::MAX),
    ensures
        reactions.page_fits(page),
{
    assert(reactions.batch() == missing_at_once(reactions));
}

// ---------------------------------------------------------------------------
// Comments

/// A comment says its text and its thread, as the caller gave them.
pub proof fn comment_says_its_text(thread: Seq<char>, text: Seq<char>)
    ensures
        ({
            let mutation = comment(thread, text);
            let entity = mutation.variables.field("entity"@);
            &&& entity is Some
            &&& entity->0.text_at("threadUrn"@) == Some(thread)
            &&& entity->0.text_at("origin"@) == Some("FEED"@)
            &&& entity->0.field("commentary"@) is Some
            &&& entity->0.field("commentary"@)->0.text_at("text"@) == Some(text)
            &&& mutation.query_id
                == "voyagerSocialDashNormComments.cd3d2a3fd6c9b2881c7cac32847ec05e"@
            &&& mutation.query_name == "CreateSocialDashNormComments"@
        }),
{
    broadcast use entry_reads;

    reveal_strlit("threadUrn");
    reveal_strlit("origin");
    reveal_strlit("commentary");
    assert("threadUrn"@.len() == 9 && "origin"@.len() == 6 && "commentary"@.len() == 10);
}

/// A query for comments names the thing whose comments they are, where to start
/// and how many; so do those for replies and for one comment, and each of the
/// three is a query of its own.
pub proof fn comments_are_asked_for_by_name_and_number(
    urn: Seq<char>,
    other: Seq<char>,
    start: u32,
    count: u32,
)
    ensures
        exists|from: Seq<char>, many: Seq<char>|
            {
                &&& #[trigger] is_numeral(from, start as nat)
                &&& #[trigger] is_numeral(many, count as nat)
                &&& comments_query(urn, start, count).variables == "(count:"@ + many
                    + ",socialDetailUrn:"@ + urn + ",sortOrder:RELEVANCE,start:"@ + from + ")"@
                &&& replies_query(urn, count, other).variables == "(commentUrn:"@ + urn
                    + ",count:"@ + many + ",cursor:"@ + other + ")"@
            },
        single_comment_query(urn, other).variables == "(commentUrn:"@ + urn
            + ",updateThreadUrn:"@ + other + ")"@,
        comments_query(urn, start, count).query_id
            == "voyagerSocialDashComments.59bca422f480a4cc0ce56ccd81181488"@,
        comments_query(urn, start, count).query_name == "SocialDashCommentsBySocialDetail"@,
        comments_query(urn, start, count).result_key == "socialDashCommentsBySocialDetail"@,
        replies_query(urn, count, other).query_id
            == "voyagerSocialDashComments.8ada653d14b465e4f86d3ed7dcbe6695"@,
        replies_query(urn, count, other).query_name == "SocialDashCommentsByRepliesByCursor"@,
        replies_query(urn, count, other).result_key == "socialDashCommentsByRepliesByCursor"@,
        single_comment_query(urn, other).query_id
            == "voyagerSocialDashComments.a84e91d6baaa2d2018fdc49f21541de5"@,
        single_comment_query(urn, other).query_name == "SocialDashCommentsBySingleComment"@,
        single_comment_query(urn, other).result_key == "socialDashCommentsBySingleComment"@,
{
    numerals_are_digits(start as nat);
    numerals_are_digits(count as nat);
    assert(is_numeral(decimal(start as nat), start as nat));
    assert(is_numeral(decimal(count as nat), count as nat));
}

// ---------------------------------------------------------------------------
// Media types and attachments

/// The type of a file goes by what follows the last dot of its name, in any
/// letter case: nine endings have one, and no others.
pub proof fn endings_tell_the_type(front: Seq<char>, ending: Seq<char>)
    requires
        !ending.contains('.'),
    ensures
        ({
            let types = media_type(front.push('.') + ending);
            let lower = ascii_lower(ending);
            let is = |upload_type: Seq<char>, content_type: Seq<char>|
                types == Ok::<_, ErrorView>((upload_type, content_type));
            &&& lower == "png"@ ==> is("IMAGE_SHARING"@, "image/png"@)
            &&& lower == "jpg"@ || lower == "jpeg"@ ==> is("IMAGE_SHARING"@, "image/jpeg"@)
            &&& lower == "gif"@ ==> is("IMAGE_SHARING"@, "image/gif"@)
            &&& lower == "webp"@ ==> is("IMAGE_SHARING"@, "image/webp"@)
            &&& lower == "mp4"@ ==> is("VIDEO_SHARING"@, "video/mp4"@)
            &&& lower == "mov"@ ==> is("VIDEO_SHARING"@, "video/quicktime"@)
            &&& lower == "m4v"@ ==> is("VIDEO_SHARING"@, "video/x-m4v"@)
            &&& lower == "webm"@ ==> is("VIDEO_SHARING"@, "video/webm"@)
            &&& lower == "pdf"@ ==> is("DOCUMENT_SHARING"@, "application/pdf"@)
            &&& types is Err <==> {
                &&& lower != "png"@ && lower != "jpg"@ && lower != "jpeg"@ && lower != "gif"@
                &&& lower != "webp"@ && lower != "mp4"@ && lower != "mov"@ && lower != "m4v"@
                &&& lower != "webm"@ && lower != "pdf"@
            }
            &&& types is Err ==> types->Err_0 == ErrorView::InvalidInput(
                "unsupported LinkedIn media type for '"@ + (front.push('.') + ending) + "'"@,
            )
        }),
{
    lemma_last_piece(front, '.', ending);
    reveal_strlit("png");
    reveal_strlit("jpg");
    reveal_strlit("jpeg");
    reveal_strlit("gif");
    reveal_strlit("webp");
    reveal_strlit("mp4");
    reveal_strlit("mov");
    reveal_strlit("m4v");
    reveal_strlit("webm");
    reveal_strlit("pdf");
    assert("png"@[1] == 'n' && "jpg"@[0] == 'j' && "gif"@[0] == 'g' && "mp4"@[1] == 'p'
        && "mov"@[1] == 'o' && "m4v"@[1] == '4' && "pdf"@[1] == 'd' && "png"@[0] == 'p'
        && "pdf"@[0] == 'p' && "mp4"@[0] == 'm' && "mov"@[0] == 'm' && "m4v"@[0] == 'm');
    assert("png"@.len() == 3 && "jpg"@.len() == 3 && "gif"@.len() == 3 && "mp4"@.len() == 3
        && "mov"@.len() == 3 && "m4v"@.len() == 3 && "pdf"@.len() == 3 && "jpeg"@.len() == 4
        && "webp"@.len() == 4 && "webm"@.len() == 4);
    assert("jpeg"@[0] == 'j' && "webp"@[0] == 'w' && "webm"@[0] == 'w' && "webp"@[3] == 'p'
        && "webm"@[3] == 'm');
}

/// A name without a dot is an ending by itself.
pub proof fn name_without_a_dot_is_an_ending(name: Seq<char>, front: Seq<char>)
    requires
        !name.contains('.'),
    ensures
        media_type(name) is Ok <==> media_type(front.push('.') + name) is Ok,
        media_type(name) is Ok ==> media_type(name) == media_type(front.push('.') + name),
{
    split_takes_apart(name, '.');
    lemma_last_piece(front, '.', name);
    lemma_one_piece(name, '.');
}

proof fn lemma_one_piece(s: Seq<char>, separator: char)
    requires
        !s.contains(separator),
    ensures
        split_on(s, separator).last() == s,
        split_on(s, separator).len() == 1,
    decreases s.len(),
{
    if s.len() > 0 {
        let front = s.drop_last();
        assert forall|i: int| 0 <= i < front.len() implies front[i] != separator by {
            assert(s[i] == front[i]);
            assert(s.contains(s[i]));
        }
        lemma_one_piece(front, separator);
        assert(s.contains(s.last()));
        assert(front.push(s.last()) == s);
    } else {
        assert(s == Seq::<char>::empty());
    }
}

/// A file is accepted exactly where it exists, has a name, and the name tells a
/// type; then the name and the types are kept.
pub proof fn accepted_file_keeps_its_name(
    path: Seq<char>,
    is_file: bool,
    filename: Option<Seq<char>>,
)
    ensures
        accepted_file(path, is_file, filename) is Ok <==> is_file && filename is Some
            && media_type(filename->0) is Ok,
        accepted_file(path, is_file, filename) matches Ok(file) ==> {
            &&& file.filename == filename->0
            &&& media_type(filename->0) == Ok::<_, ErrorView>((file.upload_type, file.content_type))
        },
        !is_file ==> accepted_file(path, is_file, filename) == Err::<MediaFileView, _>(
            ErrorView::InvalidInput("media file does not exist: "@ + path),
        ),
        is_file && filename is None ==> accepted_file(path, is_file, filename) == Err::<
            MediaFileView,
            _,
        >(ErrorView::InvalidInput("media path has no valid filename"@)),
        is_file && filename is Some && media_type(filename->0) is Err ==> accepted_file(
            path,
            is_file,
            filename,
        )->Err_0 == media_type(filename->0)->Err_0,
{
}

/// Uploads are polled as documents or videos where they are such, and else as
/// images.
pub proof fn status_types_by_upload_type(upload_type: Seq<char>)
    ensures
        status_type_of("DOCUMENT_SHARING"@) == "DOCUMENT_PREVIEW"@,
        status_type_of("VIDEO_SHARING"@) == "VIDEO"@,
        upload_type != "DOCUMENT_SHARING"@ && upload_type != "VIDEO_SHARING"@ ==> status_type_of(
            upload_type,
        ) == "IMAGE"@,
{
    reveal_strlit("DOCUMENT_SHARING");
    reveal_strlit("VIDEO_SHARING");
    assert("DOCUMENT_SHARING"@[0] != "VIDEO_SHARING"@[0]);
}

/// What refers to uploaded media says what kind they are and names them; their
/// own recipes go before those of their kind. A video says that it was recorded
/// before, and a document has its title.
pub proof fn attachment_says_what_the_media_are(media: JsonView, title: Option<Seq<char>>)
    ensures
        ({
            let kind = media.text_at("media_upload_type"@);
            let urn = media.text_at("urn"@);
            let payload = media_payload(media, title);
            let video = kind == Some("VIDEO_SHARING"@);
            let document = kind == Some("DOCUMENT_SHARING"@);
            let image = kind == Some("IMAGE_SHARING"@);
            &&& payload is Ok <==> urn is Some && (video || document || image)
            &&& kind is None ==> payload->Err_0 == ErrorView::InvalidInput(
                "media metadata missing media_upload_type"@,
            )
            &&& kind is Some && urn is None ==> payload->Err_0 == ErrorView::InvalidInput(
                "media metadata missing urn"@,
            )
            &&& kind is Some && urn is Some && payload is Err ==> payload->Err_0
                == ErrorView::InvalidInput("unsupported media_upload_type '"@ + kind->0 + "'"@)
            &&& payload is Ok ==> {
                let said = payload->Ok_0;
                &&& said.text_at("mediaUrn"@) == urn
                &&& video ==> said.text_at("category"@) == Some("VIDEO"@)
                &&& document ==> said.text_at("category"@) == Some("NATIVE_DOCUMENT"@)
                &&& image ==> said.text_at("category"@) == Some("IMAGE"@)
                &&& said.text_at("nativeMediaSource"@) == if video {
                    Some("PRE_RECORDED"@)
                } else {
                    None
                }
                &&& said.text_at("title"@) == if document {
                    title
                } else {
                    None
                }
                &&& media.field("recipes"@) is Some ==> said.field("recipes"@) == media.field(
                    "recipes"@,
                )
                &&& media.field("recipes"@) is None ==> {
                    let recipes = said.items_at("recipes"@);
                    &&& recipes is Some
                    &&& video ==> recipes->0 == seq![
                        JsonView::Text(
                            "urn:li:digitalmediaRecipe:feedshare-video-captions-thumbnails-ambry"@,
                        ),
                        JsonView::Text(
                            "urn:li:digitalmediaRecipe:feedshare-video-auto-caption-public"@,
                        ),
                    ]
                    &&& document ==> recipes->0 == seq![
                        JsonView::Text("urn:li:digitalmediaRecipe:feedshare-document-preview"@),
                        JsonView::Text("urn:li:digitalmediaRecipe:feedshare-document"@),
                    ]
                    &&& image ==> recipes->0 == seq![
                        JsonView::Text("urn:li:digitalmediaRecipe:feedshare-image"@),
                    ]
                }
            }
        }),
{
    broadcast use entry_reads;

    reveal_strlit("DOCUMENT_SHARING");
    reveal_strlit("VIDEO_SHARING");
    reveal_strlit("IMAGE_SHARING");
    assert("IMAGE_SHARING"@[0] == 'I' && "VIDEO_SHARING"@[0] == 'V' && "DOCUMENT_SHARING"@[0]
        == 'D');
    reveal_strlit("category");
    reveal_strlit("mediaUrn");
    reveal_strlit("recipes");
    reveal_strlit("nativeMediaSource");
    reveal_strlit("title");
    assert("category"@[0] == 'c' && "mediaUrn"@[0] == 'm');
    assert("category"@.len() == 8 && "mediaUrn"@.len() == 8 && "recipes"@.len() == 7
        && "nativeMediaSource"@.len() == 17 && "title"@.len() == 5);
}

// ---------------------------------------------------------------------------
// Shares

/// The post inside a request that creates a share.
pub open spec fn post_sent(request: HttpRequestView) -> Option<JsonView> {
    match request.body {
        BodyView::Json(body) => match body.field("variables"@) {
            Some(variables) => variables.field("post"@),
            None => None,
        },
        _ => None,
    }
}

/// Whether the metadata of an upload name media that can be attached.
pub open spec fn can_be_attached(media: JsonView) -> bool {
    &&& media.text_at("urn"@) is Some
    &&& {
        ||| media.text_at("media_upload_type"@) == Some("VIDEO_SHARING"@)
        ||| media.text_at("media_upload_type"@) == Some("DOCUMENT_SHARING"@)
        ||| media.text_at("media_upload_type"@) == Some("IMAGE_SHARING"@)
    }
}

/// A share is sent exactly where its visibility and its state are known ones,
/// its time is there if it is scheduled, and its media can be attached; where
/// it is not, the first of these that fails is the reason.
pub proof fn share_is_sent_or_refused(
    client: ClientView,
    input: ShareInput,
    visibility: Seq<char>,
    lifecycle: Seq<char>,
)
    ensures
        ({
            let request = checked_share_request(client, input, visibility, lifecycle);
            let visible = visibility == "ANYONE"@ || visibility == "CONNECTIONS_ONLY"@;
            let known = lifecycle == "PUBLISHED"@ || lifecycle == "SCHEDULED"@;
            let timed = lifecycle == "PUBLISHED"@ || input.scheduled_at_ms is Some;
            let attached = match input.media {
                Some((media, _)) => can_be_attached(media),
                None => true,
            };
            &&& request is Ok <==> visible && known && timed && attached
            &&& !visible ==> request->Err_0 == ErrorView::InvalidInput(
                "invalid visibility '"@ + input.visibility
                    + "'. Must be ANYONE or CONNECTIONS_ONLY"@,
            )
            &&& visible && !known ==> request->Err_0 == ErrorView::InvalidInput(
                "invalid lifecycle_state '"@ + input.lifecycle_state
                    + "'. Must be PUBLISHED or SCHEDULED"@,
            )
            &&& visible && known && !timed ==> request->Err_0 == ErrorView::InvalidInput(
                "scheduled_at_ms is required for SCHEDULED shares"@,
            )
            &&& visible && known && timed && !attached ==> (input.media matches Some(
                (media, title),
            ) && request->Err_0 == media_payload(media, title)->Err_0)
        }),
{
    reveal_strlit("PUBLISHED");
    reveal_strlit("SCHEDULED");
    assert("PUBLISHED"@[0] != "SCHEDULED"@[0]);
    if let Some((media, title)) = input.media {
        attachment_says_what_the_media_are(media, title);
    }
}

/// A share that is sent says what the caller gave: the text, who may see it, the
/// state, the time where it is scheduled, and the media. It goes to the service
/// in the session of the client, and the body names the mutation that the
/// address names.
pub proof fn sent_share_says_what_was_given(
    client: ClientView,
    input: ShareInput,
    visibility: Seq<char>,
    lifecycle: Seq<char>,
)
    requires
        checked_share_request(client, input, visibility, lifecycle) is Ok,
    ensures
        ({
            let request = checked_share_request(client, input, visibility, lifecycle)->Ok_0;
            let query = "voyagerContentcreationDashShares.279996efa5064c01775d5aff003d9377"@;
            &&& request.method == Method::Post
            &&& request.url == client.base_url + client.api_prefix
                + ("graphql?action=execute&queryId="@ + query)
            &&& request.headers == seq![
                ("Csrf-Token"@, client.jsessionid),
                ("x-li-graphql-pegasus-client"@, "true"@),
            ]
            &&& request.body is Json
            &&& request.body->Json_0.text_at("queryId"@) == Some(query)
            &&& request.body->Json_0.field("includeWebMetadata"@) == Some(JsonView::Bool(true))
            &&& request.body->Json_0.field("variables"@) is Some
            &&& request.body->Json_0.field("variables"@)->0.field("post"@) is Some
        }),
        ({
            let request = checked_share_request(client, input, visibility, lifecycle)->Ok_0;
            let post = request.body->Json_0.field("variables"@)->0.field("post"@)->0;
            &&& post.field("visibilityDataUnion"@)->0.text_at("visibilityType"@) == Some(visibility)
            &&& post.field("commentary"@)->0.text_at("text"@) == Some(input.text)
            &&& post.text_at("intendedShareLifeCycleState"@) == Some(lifecycle)
            &&& lifecycle == "SCHEDULED"@ ==> post.field("scheduledAt"@) == Some(
                JsonView::integer(input.scheduled_at_ms->0 as int),
            )
            &&& lifecycle != "SCHEDULED"@ ==> post.field("scheduledAt"@) is None
            &&& input.media is None ==> post.field("media"@) is None
            &&& input.media matches Some((media, title)) ==> {
                &&& post.field("media"@) is Some
                &&& post.field("media"@)->0.text_at("mediaUrn"@) == media.text_at("urn"@)
                &&& post.field("media"@) == Some(media_payload(media, title)->Ok_0)
            }
        }),
        says_what_was_given(
            checked_share_request(client, input, visibility, lifecycle)->Ok_0,
            input,
            visibility,
            lifecycle,
        ),
{
    let request = checked_share_request(client, input, visibility, lifecycle)->Ok_0;
    address_and_body_name_one_query(client, post_sent(request)->0);
    lemma_says_what_was_given(client, input, visibility, lifecycle);
    share_is_sent_or_refused(client, input, visibility, lifecycle);
    if let Some((media, title)) = input.media {
        attachment_says_what_the_media_are(media, title);
    }
    assert(request.headers == seq![
        ("Csrf-Token"@, client.jsessionid),
        ("x-li-graphql-pegasus-client"@, "true"@),
    ]);
    reveal_strlit("graphql?action=execute&queryId=");
    reveal_strlit("voyagerContentcreationDashShares.279996efa5064c01775d5aff003d9377");
    reveal_strlit(
        "graphql?action=execute&queryId=voyagerContentcreationDashShares.279996efa5064c01775d5aff003d9377",
    );
    assert("graphql?action=execute&queryId="@
        + "voyagerContentcreationDashShares.279996efa5064c01775d5aff003d9377"@
        == "graphql?action=execute&queryId=voyagerContentcreationDashShares.279996efa5064c01775d5aff003d9377"@);
    lemma_share_body_frame(client, input, visibility, lifecycle);
}

/// Whether a request that creates a share says the text, who may see it, the
/// state, the time where it is scheduled, and the media.
pub open spec fn says_what_was_given(
    request: HttpRequestView,
    input: ShareInput,
    visibility: Seq<char>,
    lifecycle: Seq<char>,
) -> bool {
    &&& post_sent(request) is Some
    &&& {
        let post = post_sent(request)->0;
        &&& post.text_at("allowedCommentersScope"@) == Some("ALL"@)
        &&& post.text_at("origin"@) == Some("FEED"@)
        &&& post.text_at("intendedShareLifeCycleState"@) == Some(lifecycle)
        &&& post.field("visibilityDataUnion"@) is Some
        &&& post.field("visibilityDataUnion"@)->0.text_at("visibilityType"@) == Some(visibility)
        &&& post.field("commentary"@) is Some
        &&& post.field("commentary"@)->0.text_at("text"@) == Some(input.text)
        &&& post.field("commentary"@)->0.items_at("attributesV2"@) == Some(
            Seq::<JsonView>::empty(),
        )
        &&& post.field("scheduledAt"@) == if lifecycle == "SCHEDULED"@ {
            Some(JsonView::integer(input.scheduled_at_ms->0 as int))
        } else {
            None
        }
        &&& post.field("media"@) == match input.media {
            Some((media, title)) => Some(media_payload(media, title)->Ok_0),
            None => None,
        }
    }
}

proof fn lemma_share_body_frame(
    client: ClientView,
    input: ShareInput,
    visibility: Seq<char>,
    lifecycle: Seq<char>,
)
    requires
        checked_share_request(client, input, visibility, lifecycle) is Ok,
    ensures
        ({
            let request = checked_share_request(client, input, visibility, lifecycle)->Ok_0;
            let query = "voyagerContentcreationDashShares.279996efa5064c01775d5aff003d9377"@;
            &&& request.body is Json
            &&& request.body->Json_0.text_at("queryId"@) == Some(query)
            &&& request.body->Json_0.field("includeWebMetadata"@) == Some(JsonView::Bool(true))
            &&& request.body->Json_0.field("variables"@) is Some
        }),
{
    broadcast use entry_reads;

    reveal_strlit("variables");
    reveal_strlit("queryId");
    reveal_strlit("includeWebMetadata");
    assert("variables"@.len() == 9 && "queryId"@.len() == 7 && "includeWebMetadata"@.len() == 18);
}

proof fn lemma_says_what_was_given(
    client: ClientView,
    input: ShareInput,
    visibility: Seq<char>,
    lifecycle: Seq<char>,
)
    requires
        checked_share_request(client, input, visibility, lifecycle) is Ok,
    ensures
        says_what_was_given(
            checked_share_request(client, input, visibility, lifecycle)->Ok_0,
            input,
            visibility,
            lifecycle,
        ),
{
    broadcast use entry_reads;

    reveal_strlit("variables");
    reveal_strlit("queryId");
    reveal_strlit("includeWebMetadata");
    assert("variables"@.len() == 9 && "queryId"@.len() == 7 && "includeWebMetadata"@.len() == 18);
    reveal_strlit("allowedCommentersScope");
    reveal_strlit("intendedShareLifeCycleState");
    reveal_strlit("origin");
    reveal_strlit("visibilityDataUnion");
    reveal_strlit("commentary");
    reveal_strlit("scheduledAt");
    reveal_strlit("media");
    assert("allowedCommentersScope"@.len() == 22 && "intendedShareLifeCycleState"@.len() == 27
        && "origin"@.len() == 6 && "visibilityDataUnion"@.len() == 19 && "commentary"@.len() == 10
        && "scheduledAt"@.len() == 11 && "media"@.len() == 5);
    reveal_strlit("text");
    reveal_strlit("attributesV2");
    assert("text"@.len() == 4 && "attributesV2"@.len() == 12);
}

/// The body of a share, whatever it is, is sent as it is, in the session of the
/// client.
pub proof fn share_is_sent_as_built(client: ClientView, body: JsonView)
    ensures
        share_request(client, body).method == Method::Post,
        share_request(client, body).body == BodyView::Json(body),
        share_request(client, body).url == client.base_url + client.api_prefix
            + "graphql?action=execute&queryId=voyagerContentcreationDashShares.279996efa5064c01775d5aff003d9377"@,
        share_request(client, body).headers == seq![
            ("Csrf-Token"@, client.jsessionid),
            ("x-li-graphql-pegasus-client"@, "true"@),
        ],
{
    assert(share_request(client, body).headers == seq![
        ("Csrf-Token"@, client.jsessionid),
        ("x-li-graphql-pegasus-client"@, "true"@),
    ]);
}

/// Media are reported as ready exactly where the report says `true` under `ok`.
pub proof fn only_true_is_ready(ready: JsonView)
    ensures
        is_ready(ready) <==> ready.field("ok"@) == Some(JsonView::Bool(true)),
{
}

/// A share is asked for by its name without the prefix, and so it is deleted,
/// in the session of the client; the name stands last in the address.
pub proof fn shares_go_by_their_key(client: ClientView, key: Seq<char>, encoded: Seq<char>)
    ensures
        share_key("urn:li:fsd_share:"@ + key) == key,
        (forall|tail: Seq<char>| key != #[trigger] ("urn:li:fsd_share:"@ + tail)) ==> share_key(key)
            == key,
        share_params(encoded) == "variables=(shareUrns:List("@ + encoded
            + "))&queryId=voyagerContentcreationDashShares.b6c8295dc377a63224101ecce6d3c1ca"@,
        delete_request(client, encoded).method == Method::Delete,
        delete_request(client, encoded).url == client.base_url + client.api_prefix
            + "contentcreation/normShares/"@ + encoded,
        delete_request(client, encoded).headers == seq![("Csrf-Token"@, client.jsessionid)],
        delete_request(client, encoded).body == BodyView::Empty,
{
    prefix_comes_off("urn:li:fsd_share:"@, key, key);
    assert(delete_request(client, encoded).headers == seq![("Csrf-Token"@, client.jsessionid)]);
}

/// A deletion that succeeded reports its status and what was deleted; one that
/// did not fails with the answer as it came.
pub proof fn deletion_reports_what_happened(key: Seq<char>, status: u16, body: Seq<char>)
    ensures
        200 <= status <= 299 ==> (deletion_result(key, status, body) matches Ok(report) && {
            &&& report.unsigned_at("status_code"@) == Some(status as u64)
            &&& report.text_at("share_urn"@) == Some(key)
        }),
        !(200 <= status <= 299) ==> deletion_result(key, status, body) == Err::<JsonView, _>(
            ErrorView::Api { status, body, correlation_id: None },
        ),
{
    broadcast use entry_reads;

    reveal_strlit("status_code");
    reveal_strlit("share_urn");
    assert("status_code"@.len() == 11 && "share_urn"@.len() == 9);
}

// ---------------------------------------------------------------------------
// Announcing an upload

/// The announcement of an upload tells the name, the type and the size of the
/// file, and asks for parts exactly where it is an image of more than a million
/// bytes.
pub proof fn announcement_describes_the_file(file: MediaFileView, size: usize)
    ensures
        ({
            let request = metadata_request(file, size);
            &&& request.path == "voyagerMediaUploadMetadata?action=upload"@
            &&& request.body.text_at("mediaUploadType"@) == Some(file.upload_type)
            &&& request.body.field("fileSize"@) == Some(JsonView::Unsigned(size as u64))
            &&& request.body.field("hasOverlayImage"@) == Some(JsonView::Bool(false))
            &&& request.body.text_at("filename"@) == Some(file.filename)
            &&& request.body.text_at("uploadMetadataType"@) == if file.upload_type
                == "IMAGE_SHARING"@ && size > 1_000_000 {
                Some("MULTIPART"@)
            } else {
                Some("SINGLE"@)
            }
        }),
{
    broadcast use entry_reads;

    reveal_strlit("mediaUploadType");
    reveal_strlit("fileSize");
    reveal_strlit("hasOverlayImage");
    reveal_strlit("uploadMetadataType");
    reveal_strlit("filename");
    assert("mediaUploadType"@.len() == 15 && "fileSize"@.len() == 8 && "hasOverlayImage"@.len()
        == 15 && "uploadMetadataType"@.len() == 18 && "filename"@.len() == 8);
    assert("fileSize"@[4] == 'S' && "filename"@[4] == 'n');
    assert("mediaUploadType"@[0] == 'm' && "hasOverlayImage"@[0] == 'h');
}

/// The upload metadata are what the reply holds under `value`; without that the
/// whole reply is the complaint.
pub proof fn metadata_are_the_value(meta: JsonView)
    ensures
        meta.field("value"@) matches Some(value) ==> value_of_metadata(meta) == Ok::<
            _,
            ErrorView,
        >(value),
        meta.field("value"@) is None ==> value_of_metadata(meta) == Err::<JsonView, _>(
            ErrorView::Api {
                status: 200,
                body: "missing upload metadata value: "@ + json_text(meta),
                correlation_id: None,
            },
        ),
{
}

/// The bytes go in parts exactly where the metadata list any, and else in one
/// piece where they give an address. Either way the upload has the metadata,
/// all bytes of the file, and its types; without an address or a name for the
/// media there is none.
pub proof fn plan_follows_the_metadata(file: MediaFileView, value: JsonView, bytes: Seq<u8>)
    ensures
        ({
            let plan = upload_plan(file, value, bytes);
            let in_parts = value.items_at("partUploadRequests"@) matches Some(parts) && parts.len()
                > 0;
            let has_address = value.text_at("singleUploadUrl"@) is Some;
            let has_name = value.text_at("urn"@) is Some;
            &&& plan is Ok <==> (in_parts || has_address) && has_name
            &&& in_parts && has_name ==> (plan matches Ok(UploadPlanView::Multipart(upload)) && {
                &&& upload.value == value
                &&& upload.bytes == bytes
                &&& upload.upload_type == file.upload_type
                &&& upload.content_type == file.content_type
                &&& upload.responses.len() == 0
            })
            &&& !in_parts && has_address && has_name ==> (plan matches Ok(
                UploadPlanView::Single(upload),
            ) && {
                &&& upload.value == value
                &&& upload.bytes == bytes
                &&& upload.upload_type == file.upload_type
                &&& upload.content_type == file.content_type
            })
            &&& !in_parts && !has_address ==> plan->Err_0 == (ErrorView::Api {
                status: 200,
                body: "missing singleUploadUrl: "@ + json_text(value),
                correlation_id: None,
            })
            &&& (in_parts || has_address) && !has_name ==> plan->Err_0 == (ErrorView::Api {
                status: 200,
                body: "missing urn: "@ + json_text(value),
                correlation_id: None,
            })
        }),
{
}

// ---------------------------------------------------------------------------
// Sending the bytes

proof fn lemma_text_fields(list: Seq<(Seq<char>, JsonView)>, name: Seq<char>, text: Seq<char>)
    ensures
        text_fields(list).contains((name, text)) <==> list.contains((name, JsonView::Text(text))),
        text_fields(list).len() <= list.len(),
    decreases list.len(),
{
    if list.len() > 0 {
        let front = list.drop_last();
        let before = text_fields(front);
        lemma_text_fields(front, name, text);
        assert(front.push(list.last()) == list);
        assert(list.contains((name, JsonView::Text(text))) <==> front.contains(
            (name, JsonView::Text(text)),
        ) || list.last() == (name, JsonView::Text(text))) by {
            lemma_contains_push(front, list.last(), (name, JsonView::Text(text)));
        }
        if let JsonView::Text(last) = list.last().1 {
            lemma_contains_push(before, (list.last().0, last), (name, text));
        }
    }
}

proof fn lemma_contains_push<A>(list: Seq<A>, last: A, item: A)
    ensures
        list.push(last).contains(item) <==> list.contains(item) || last == item,
{
    if list.contains(item) {
        let i = choose|i: int| 0 <= i < list.len() && list[i] == item;
        assert(list.push(last)[i] == item);
    }
    assert(list.push(last)[list.len() as int] == last);
    if list.push(last).contains(item) {
        let i = choose|i: int| 0 <= i < list.push(last).len() && list.push(last)[i] == item;
        if i < list.len() {
            assert(list[i] == item);
        }
    }
}

proof fn lemma_in_order_field(
    list: Seq<(Seq<char>, JsonView)>,
    name: Seq<char>,
    value: JsonView,
)
    requires
        in_order(list),
    ensures
        JsonView::Object(list).field(name) == Some(value) <==> list.contains((name, value)),
{
    field_is_the_last_of_its_name(JsonView::Object(list), name);
    lemma_position_of(list, name);
    lemma_precedes_irreflexive(name);
    if list.contains((name, value)) {
        let i = choose|i: int| 0 <= i < list.len() && list[i] == (name, value);
        assert forall|j: int| i < j < list.len() implies (#[trigger] list[j]).0 != name by {
            assert(precedes(list[i].0, list[j].0));
        }
        assert(list[i].0 == name);
    }
    if JsonView::Object(list).field(name) == Some(value) {
        let at = position_of(list, name);
        assert(list[at] == (name, value));
    }
}

/// The headers of a request that sends bytes: first the type of the bytes,
/// which is left open, then each string field of what the service lists, and
/// nothing else.
pub proof fn listed_headers_are_sent(list: Option<JsonView>, name: Seq<char>, text: Seq<char>)
    ensures
        upload_headers(list).len() > 0,
        upload_headers(list)[0] == ("content-type"@, "application/octet-stream"@),
        upload_headers(list).skip(1).contains((name, text)) <==> (list matches Some(json)
            && json.text_at(name) == Some(text)),
{
    assert(upload_headers(list).skip(1) == listed_headers(list));
    if let Some(json) = list {
        if let JsonView::Object(fields) = json {
            order_keeps_fields(fields, name);
            lemma_text_fields(ordered(fields), name, text);
            lemma_in_order_field(ordered(fields), name, JsonView::Text(text));
        }
    }
}

/// An upload in one piece sends the whole file, of any length, to the address
/// that the service gave, with the headers that it listed.
pub proof fn single_upload_sends_the_whole_file(upload: SingleUploadView)
    requires
        upload.value.text_at("singleUploadUrl"@) is Some,
    ensures
        upload.request().method == Method::Put,
        upload.request().url == upload.value.text_at("singleUploadUrl"@)->0,
        upload.request().body == BodyView::Bytes(upload.bytes),
        upload.request().headers == upload_headers(upload.value.field("singleUploadHeaders"@)),
{
}

/// From the file to the request: an upload in one piece sends all bytes of the
/// file that was accepted.
pub proof fn planned_upload_sends_the_whole_file(
    file: MediaFileView,
    value: JsonView,
    bytes: Seq<u8>,
)
    requires
        upload_plan(file, value, bytes) matches Ok(UploadPlanView::Single(_)),
    ensures
        ({
            let request = upload_plan(file, value, bytes)->Ok_0->Single_0.request();
            &&& request.body == BodyView::Bytes(bytes)
            &&& value.text_at("singleUploadUrl"@) == Some(request.url)
            &&& request.method == Method::Put
        }),
{
    plan_follows_the_metadata(file, value, bytes);
}

/// An upload in one piece succeeds exactly where the answer does; its failure
/// tells the size, the status and what the answer said.
pub proof fn single_upload_ends_as_answered(
    upload: SingleUploadView,
    status: u16,
    body: Seq<char>,
)
    ensures
        upload.result(status, body) is Ok <==> 200 <= status <= 299,
        upload.result(status, body) is Err ==> exists|size: Seq<char>, code: Seq<char>|
            {
                &&& #[trigger] is_numeral(size, upload.bytes.len())
                &&& #[trigger] is_numeral(code, status as nat)
                &&& upload.result(status, body)->Err_0 == (ErrorView::Api {
                    status,
                    body: "CDN single-upload failed ("@ + size + " bytes, status "@ + code + "): "@
                        + body,
                    correlation_id: None,
                })
            },
{
    numerals_are_digits(upload.bytes.len());
    numerals_are_digits(status as nat);
    assert(is_numeral(decimal(upload.bytes.len()), upload.bytes.len()));
    assert(is_numeral(decimal(status as nat), status as nat));
}

/// The part that is due is the one after those that were answered.
pub proof fn parts_are_due_in_order(upload: MultipartUploadView, parts: Seq<JsonView>)
    requires
        upload.value.items_at("partUploadRequests"@) == Some(parts),
    ensures
        upload.parts() == parts,
        upload.due() <==> upload.responses.len() < parts.len(),
        upload.due() ==> upload.part() == parts[upload.responses.len() as int],
{
}

/// A part that tells its first and last byte is sent as these bytes of the
/// file, all of them, to the address of the part, which has either of two
/// names, with the headers of the part, which have either of two names.
pub proof fn part_is_sent_as_numbered(
    upload: MultipartUploadView,
    part: JsonView,
    url: Seq<char>,
    first: u64,
    last: u64,
)
    requires
        upload.value.items_at("partUploadRequests"@) is Some,
        upload.responses.len() < upload.value.items_at("partUploadRequests"@)->0.len(),
        part == upload.value.items_at("partUploadRequests"@)->0[upload.responses.len() as int],
        part.text_at("uploadUrl"@) == Some(url) || (part.field("uploadUrl"@) is None
            && part.text_at("partUploadUrl"@) == Some(url)),
        part.unsigned_at("firstByte"@) == Some(first),
        part.unsigned_at("lastByte"@) == Some(last),
        first <= last + 1,
        last < upload.bytes.len() <= usize::MAX,
    ensures
        upload.part_fits(),
        upload.part_request() is Ok,
        ({
            let request = upload.part_request()->Ok_0;
            &&& request.method == Method::Put
            &&& request.url == url
            &&& request.body == BodyView::Bytes(upload.bytes.subrange(first as int, last + 1))
            &&& request.headers == upload_headers(
                match part.field("headers"@) {
                    Some(headers) => Some(headers),
                    None => part.field("partUploadHeaders"@),
                },
            )
        }),
{
    assert((first as usize) as int == first as int);
    assert((last as usize) as int == last as int);
}

/// A part that tells its place as a range is sent as the bytes of that range; a
/// part that tells no place is sent as the whole file.
pub proof fn part_is_sent_as_ranged(
    upload: MultipartUploadView,
    part: JsonView,
    url: Seq<char>,
    first: usize,
    last: usize,
)
    requires
        upload.value.items_at("partUploadRequests"@) is Some,
        upload.responses.len() < upload.value.items_at("partUploadRequests"@)->0.len(),
        part == upload.value.items_at("partUploadRequests"@)->0[upload.responses.len() as int],
        part.text_at("uploadUrl"@) == Some(url) || (part.field("uploadUrl"@) is None
            && part.text_at("partUploadUrl"@) == Some(url)),
        part.unsigned_at("firstByte"@) is None || part.unsigned_at("lastByte"@) is None,
        0 < upload.bytes.len() <= usize::MAX,
        ({
            ||| {
                &&& part.text_at("byteRange"@) == Some(
                    "bytes "@ + (decimal(first as nat).push('-') + decimal(last as nat)),
                )
                &&& first <= last + 1
                &&& last < upload.bytes.len()
            }
            ||| {
                &&& part.text_at("byteRange"@) is None
                &&& first == 0
                &&& last == upload.bytes.len() - 1
            }
        }),
    ensures
        upload.part_fits(),
        upload.part_request() is Ok,
        upload.part_request()->Ok_0.url == url,
        upload.part_request()->Ok_0.body == BodyView::Bytes(
            upload.bytes.subrange(first as int, last + 1),
        ),
{
    byte_range_reads_back(first, last, upload.bytes.len() as usize);
    empty_range_is_the_whole_file(upload.bytes.len() as usize);
}

/// A part without an address is the complaint, with its number; a range that
/// cannot be read is one too.
pub proof fn part_needs_an_address_and_a_place(upload: MultipartUploadView, part: JsonView)
    requires
        part == upload.part(),
    ensures
        part_url(part) == match part.field("uploadUrl"@) {
            Some(url) => url.text(),
            None => part.text_at("partUploadUrl"@),
        },
        part_url(part) is None ==> exists|number: Seq<char>|
            {
                &&& #[trigger] is_numeral(number, upload.responses.len())
                &&& upload.part_request() == Err::<HttpRequestView, _>(
                    ErrorView::Api {
                        status: 200,
                        body: "part "@ + number + " missing uploadUrl/partUploadUrl: "@
                            + json_text(part),
                        correlation_id: None,
                    },
                )
            },
        part_url(part) is Some && part_range(part, upload.bytes.len() as usize) is Err
            ==> upload.part_request() is Err && upload.part_request()->Err_0 == part_range(
            part,
            upload.bytes.len() as usize,
        )->Err_0,
{
    numerals_are_digits(upload.responses.len());
    assert(is_numeral(decimal(upload.responses.len()), upload.responses.len()));
}

/// What is kept of the answer to a part is its status, its headers and its body,
/// and it is kept after those to the parts before; nothing else of the upload
/// changes.
pub proof fn answers_are_kept(
    upload: MultipartUploadView,
    status: u16,
    headers: Seq<(Seq<char>, Option<Seq<char>>)>,
    body: Seq<char>,
)
    ensures
        ({
            let response = part_response(status, headers, body);
            let after = upload.answered(response);
            &&& response.unsigned_at("httpStatusCode"@) == Some(status as u64)
            &&& response.field("headers"@) == Some(headers_object(headers))
            &&& response.text_at("body"@) == Some(body)
            &&& after.responses == upload.responses.push(response)
            &&& after.value == upload.value && after.bytes == upload.bytes
            &&& after.upload_type == upload.upload_type && after.content_type
                == upload.content_type
            &&& upload.wf() && upload.due() && status == 200 ==> after.wf()
        }),
{
    broadcast use entry_reads;

    reveal_strlit("httpStatusCode");
    reveal_strlit("headers");
    reveal_strlit("body");
    assert("httpStatusCode"@.len() == 14 && "headers"@.len() == 7 && "body"@.len() == 4);
}

/// Of the headers of an answer, each that is valid text is kept under its name,
/// the last one where there are several; a header that is not leaves no trace.
pub proof fn last_valid_header_is_kept(
    headers: Seq<(Seq<char>, Option<Seq<char>>)>,
    name: Seq<char>,
    text: Seq<char>,
    other: Seq<char>,
)
    ensures
        headers_object(Seq::empty()).field(name) is None,
        headers_object(headers) is Object,
        headers_object(headers.push((name, Some(text)))).text_at(name) == Some(text),
        other != name ==> headers_object(headers.push((name, Some(text)))).field(other)
            == headers_object(headers).field(other),
        headers_object(headers.push((name, None))) == headers_object(headers),
    decreases headers.len(),
{
    if headers.len() > 0 {
        last_valid_header_is_kept(headers.drop_last(), name, text, other);
    }
    assert(headers.push((name, Some(text))).drop_last() == headers);
    assert(headers.push((name, None::<Seq<char>>)).drop_last() == headers);
    assert(headers_object(headers) is Object);
    lemma_with_field(headers_object(headers), name, JsonView::Text(text), name);
    lemma_with_field(headers_object(headers), name, JsonView::Text(text), other);
}

/// The completion of an upload in parts hands back what the service sent along
/// and the answers to all parts, in order.
pub proof fn completion_hands_everything_back(upload: MultipartUploadView)
    ensures
        ({
            let request = upload.completion_request();
            let body = request.body.field("completeUploadRequest"@);
            let or_empty = |text: Option<Seq<char>>|
                Some(
                    match text {
                        Some(text) => text,
                        None => Seq::<char>::empty(),
                    },
                );
            &&& request.path == "voyagerMediaUploadMetadata?action=completeMultipartUpload"@
            &&& body is Some
            &&& body->0.text_at("uploadMetadataType"@) == Some("MULTIPART"@)
            &&& body->0.text_at("multipartMetadata"@) == or_empty(
                upload.value.text_at("multipartMetadata"@),
            )
            &&& body->0.text_at("mediaArtifactUrn"@) == or_empty(
                upload.value.text_at("mediaArtifactUrn"@),
            )
            &&& body->0.items_at("partUploadResponses"@) == Some(upload.responses)
        }),
{
    broadcast use entry_reads;

    reveal_strlit("uploadMetadataType");
    reveal_strlit("multipartMetadata");
    reveal_strlit("mediaArtifactUrn");
    reveal_strlit("partUploadResponses");
    assert("uploadMetadataType"@.len() == 18 && "multipartMetadata"@.len() == 17
        && "mediaArtifactUrn"@.len() == 16 && "partUploadResponses"@.len() == 19);
}

/// The names and values of headers are all there, in order.
pub proof fn header_lists_are_whole(headers: Vec<Header>, answered: Vec<ReplyHeader>)
    ensures
        header_models(headers@).len() == headers@.len(),
        forall|i: int|
            0 <= i < headers@.len() ==> (#[trigger] header_models(headers@)[i]) == (
                headers@[i].name@,
                headers@[i].value@,
            ),
        reply_header_models(answered@).len() == answered@.len(),
        forall|i: int|
            0 <= i < answered@.len() ==> {
                &&& (#[trigger] reply_header_models(answered@)[i]).0 == answered@[i].name@
                &&& reply_header_models(answered@)[i].1 is Some <==> answered@[i].value is Some
                &&& answered@[i].value is Some ==> reply_header_models(answered@)[i].1 == Some(
                    answered@[i].value->0@,
                )
            },
{
}

// ---------------------------------------------------------------------------
// Byte ranges

/// A numeral is digits with an optional plus sign in front, and one more digit
/// makes ten times the number and the digit.
pub proof fn numerals_are_read_digit_by_digit(s: Seq<char>, digits: Seq<char>, digit: nat)
    requires
        digit < 10,
        all_digits(digits),
    ensures
        numeral_value(s) is Some <==> {
            ||| s.len() > 0 && all_digits(s)
            ||| s.len() > 1 && s[0] == '+' && all_digits(s.skip(1))
        },
        digits.len() > 0 ==> numeral_value(digits.push(digit_char(digit))) == Some(
            (numeral_value(digits)->0 * 10 + digit) as nat,
        ),
        numeral_value(seq![digit_char(digit)]) == Some(digit),
        digits.len() > 0 ==> numeral_value(seq!['+'] + digits) == numeral_value(digits),
{
    let plus = seq!['+'];
    if plus.is_prefix_of(s) {
        assert(s.subrange(0, 1)[0] == s[0]);
        assert(!is_digit(s[0]));
    } else if s.len() > 0 && s[0] == '+' {
        assert(s.subrange(0, 1) == plus);
    }
    let longer = digits.push(digit_char(digit));
    assert(longer.drop_last() == digits);
    assert(is_digit(digit_char(digit)));
    assert forall|i: int| 0 <= i < longer.len() implies is_digit(#[trigger] longer[i]) by {
        if i < digits.len() {
            assert(longer[i] == digits[i]);
        }
    }
    lemma_no_plus(longer);
    let one = seq![digit_char(digit)];
    assert(one.drop_last() == Seq::<char>::empty());
    assert(digits_value(Seq::<char>::empty()) == 0);
    assert(digits_value(one) == digit);
    assert(all_digits(one));
    lemma_no_plus(one);
    if digits.len() > 0 {
        lemma_no_plus(digits);
        assert((plus + digits).subrange(0, 1) == plus);
        assert((plus + digits).skip(1) == digits);
    }
}

/// A range that is accepted and not empty is two numerals with a hyphen between
/// them, after an optional word, and stands for their numbers, the second one
/// cut back to the last byte.
pub proof fn accepted_range_is_two_numerals(range: Seq<char>, total: usize)
    requires
        byte_range(range, total) is Ok,
        range.len() > 0,
    ensures
        exists|first: Seq<char>, last: Seq<char>|
            {
                &&& #[trigger] is_numeral(first, byte_range(range, total)->Ok_0.0 as nat)
                &&& numeral_value(#[trigger] last.take(last.len() as int)) is Some
                &&& without_prefix(range, "bytes "@) == first.push('-') + last
                &&& byte_range(range, total)->Ok_0.1 == if numeral_value(last)->0 < total {
                    numeral_value(last)->0 as int
                } else if total > 0 {
                    total - 1
                } else {
                    0
                }
            },
{
    let rest = without_prefix(range, "bytes "@);
    let pieces = split_on(rest, '-');
    split_takes_apart(rest, '-');
    let first = pieces[0];
    let last = pieces[1];
    assert(pieces.drop_last().len() == 1);
    assert(pieces.drop_last()[0] == first);
    assert(rejoined(pieces.drop_last(), '-') == first);
    assert(rest == first.push('-') + last);
    assert(last.take(last.len() as int) == last);
    assert(is_numeral(first, byte_range(range, total)->Ok_0.0 as nat));
}

/// A range of any other form is refused as a wrong input, and the message shows
/// what could not be read.
pub proof fn other_ranges_are_refused(range: Seq<char>, total: usize)
    requires
        byte_range(range, total) is Err,
    ensures
        byte_range(range, total)->Err_0 is InvalidInput,
        ({
            let pieces = split_on(without_prefix(range, "bytes "@), '-');
            let message = byte_range(range, total)->Err_0->InvalidInput_0;
            &&& pieces.len() != 2 ==> message == "invalid byte range '"@ + range
                + "', expected 'start-end'"@
            &&& pieces.len() == 2 && usize_value(pieces[0]) is None ==> message
                == "invalid byte range start '"@ + pieces[0] + "'"@
            &&& pieces.len() == 2 && usize_value(pieces[0]) is Some ==> message
                == "invalid byte range end '"@ + pieces[1] + "'"@
        }),
{
}

/// A numeral stands for a machine number exactly where that can hold it.
pub proof fn machine_numbers_have_a_limit(s: Seq<char>)
    ensures
        usize_value(s) is Some <==> numeral_value(s) is Some && numeral_value(s)->0 <= usize::MAX,
        usize_value(s) is Some ==> usize_value(s)->0 == numeral_value(s)->0,
{
}

// ---------------------------------------------------------------------------
// The wait for an upload

/// Media are ready where the service says `READY` or shows what became of a
/// document, and have failed where it says so and not that; else the wait goes
/// on.
pub proof fn readiness_is_what_the_service_says(state: JsonView)
    ensures
        ({
            let said = state.text_at("processingStatus"@);
            let ready = said == Some("READY"@) || state.field("documentProcessingResult"@) is Some;
            let failed = said == Some("FAILED"@) || said == Some("PROCESSING_FAILED"@);
            &&& verdict(state) == Some(true) <==> ready
            &&& verdict(state) == Some(false) <==> failed && !ready
            &&& verdict(state) is None <==> !failed && !ready
        }),
{
}

/// The wait asks for the state of the media under their encoded name and their
/// status type, again and again until the time is up, and then reports the time
/// and the last state.
pub proof fn wait_asks_until_the_time_is_up(
    encoded_urn: Seq<char>,
    upload_type: Seq<char>,
    wait: MediaWaitView,
    timeout_secs: u64,
)
    ensures
        media_wait(encoded_urn, upload_type).path == "voyagerVideoDashMediaAssetStatus/"@
            + encoded_urn + "?mediaStatusType="@ + status_type_of(upload_type),
        media_wait(encoded_urn, upload_type).status_type == status_type_of(upload_type),
        media_wait(encoded_urn, upload_type).last == JsonView::Null,
        wait.next(false, timeout_secs) == WaitStepView::Get(wait.path),
        wait.next(true, timeout_secs) matches WaitStepView::Report(report) && {
            &&& report.field("ok"@) == Some(JsonView::Bool(false))
            &&& report.text_at("mediaStatusType"@) == Some(wait.status_type)
            &&& report.unsigned_at("timeout_secs"@) == Some(timeout_secs)
            &&& report.field("last"@) == Some(wait.last)
        },
{
    broadcast use entry_reads;

    reveal_strlit("ok");
    reveal_strlit("mediaStatusType");
    reveal_strlit("timeout_secs");
    reveal_strlit("last");
    assert("ok"@.len() == 2 && "mediaStatusType"@.len() == 15 && "timeout_secs"@.len() == 12
        && "last"@.len() == 4);
}

/// A state that settles the wait is reported with what it settles; a state that
/// does not is remembered, and a request that failed changes nothing.
pub proof fn observed_states_settle_the_wait(wait: MediaWaitView, state: JsonView)
    ensures
        wait.observed(None) == wait,
        wait.report(None) is None,
        wait.observed(Some(state)).last == state,
        wait.observed(Some(state)).path == wait.path,
        wait.observed(Some(state)).status_type == wait.status_type,
        wait.report(Some(state)) is Some <==> verdict(state) is Some,
        wait.report(Some(state)) matches Some(report) ==> {
            &&& report.field("ok"@) == Some(JsonView::Bool(verdict(state)->0))
            &&& report.text_at("mediaStatusType"@) == Some(wait.status_type)
            &&& report.field("last"@) == Some(state)
        },
{
    broadcast use entry_reads;

    reveal_strlit("ok");
    reveal_strlit("mediaStatusType");
    reveal_strlit("last");
    assert("ok"@.len() == 2 && "mediaStatusType"@.len() == 15 && "last"@.len() == 4);
}

/// The wait is for the media that the metadata name, under the type that they
/// tell; without either there is none.
pub proof fn wait_is_for_the_named_media(media: JsonView)
    ensures
        upload_identity(media) is Ok <==> media.text_at("urn"@) is Some && media.text_at(
            "media_upload_type"@,
        ) is Some,
        upload_identity(media) matches Ok(identity) ==> {
            &&& media.text_at("urn"@) == Some(identity.0)
            &&& media.text_at("media_upload_type"@) == Some(identity.1)
        },
        media.text_at("urn"@) is None ==> upload_identity(media)->Err_0 == ErrorView::InvalidInput(
            "media metadata missing urn"@,
        ),
        media.text_at("urn"@) is Some && media.text_at("media_upload_type"@) is None
            ==> upload_identity(media)->Err_0 == ErrorView::InvalidInput(
            "media metadata missing media_upload_type"@,
        ),
{
}

// ---------------------------------------------------------------------------
// The text of a JSON value

/// An error about a JSON value says the message and then the text of the value.
pub proof fn errors_show_their_value(status: u16, message: Seq<char>, json: JsonView)
    ensures
        ErrorView::api_about(status, message, json) == (ErrorView::Api {
            status,
            body: message + json_text(json),
            correlation_id: None,
        }),
{
}

/// Plain values are written as they are: numbers as numerals, with a sign where
/// they are below zero, and strings between quotation marks.
pub proof fn plain_values_are_written_out(n: u64, m: i64, s: Seq<char>)
    ensures
        json_text(JsonView::Null) == "null"@,
        json_text(JsonView::Bool(true)) == "true"@,
        json_text(JsonView::Bool(false)) == "false"@,
        is_numeral(json_text(JsonView::Unsigned(n)), n as nat),
        m >= 0 ==> is_numeral(json_text(JsonView::Signed(m)), m as nat),
        m < 0 ==> {
            &&& json_text(JsonView::Signed(m)).len() > 0
            &&& json_text(JsonView::Signed(m))[0] == '-'
            &&& is_numeral(json_text(JsonView::Signed(m)).skip(1), (-m) as nat)
        },
        json_text(JsonView::Float(s)) == s,
        json_text(JsonView::Text(s)) == seq!['"'] + all_escaped(s) + seq!['"'],
{
    numerals_are_digits(n as nat);
    if m >= 0 {
        numerals_are_digits(m as nat);
    } else {
        numerals_are_digits((-m) as nat);
        assert(json_text(JsonView::Signed(m)).skip(1) == decimal((-m) as nat));
    }
}

/// A string is written character by character: a quotation mark or a backslash
/// behind a backslash, a control character by its escape, and each other
/// character as it is.
pub proof fn strings_are_written_character_by_character(a: Seq<char>, b: Seq<char>, c: char)
    ensures
        all_escaped(Seq::empty()) == Seq::<char>::empty(),
        all_escaped(a + b) == all_escaped(a) + all_escaped(b),
        c as u32 >= 32 && c != '"' && c != '\\' ==> all_escaped(seq![c]) == seq![c],
        c == '"' || c == '\\' ==> all_escaped(seq![c]) == seq!['\\', c],
        (c as u32) < 32 ==> all_escaped(seq![c]).len() >= 2 && all_escaped(seq![c])[0] == '\\',
    decreases b.len(),
{
    assert(seq![c].drop_last() == Seq::<char>::empty());
    assert(all_escaped(Seq::<char>::empty()) == Seq::<char>::empty());
    assert(all_escaped(seq![c]) == Seq::<char>::empty() + escaped(c));
    assert(all_escaped(seq![c]) == escaped(c));
    if b.len() > 0 {
        strings_are_written_character_by_character(a, b.drop_last(), c);
        assert((a + b).drop_last() == a + b.drop_last());
        assert(all_escaped(a + b) == all_escaped(a) + all_escaped(b));
    } else {
        assert(a + b == a);
        assert(b == Seq::<char>::empty());
        assert(all_escaped(a + b) == all_escaped(a) + all_escaped(b));
    }
}

/// A list is written between brackets; one more item comes after a comma.
pub proof fn lists_are_written_item_by_item(items: Seq<JsonView>, item: JsonView)
    ensures
        json_text(JsonView::Array(Seq::empty())) == "[]"@,
        items.len() == 0 ==> json_text(JsonView::Array(items.push(item))) == seq!['[']
            + json_text(item) + seq![']'],
        items.len() > 0 ==> json_text(JsonView::Array(items.push(item))) == json_text(
            JsonView::Array(items),
        ).drop_last() + seq![','] + json_text(item) + seq![']'],
{
    reveal_strlit("[]");
    assert(json_text(JsonView::Array(Seq::empty())) == "[]"@);
    assert(items.push(item).drop_last() == items);
    lemma_json_texts_len(items);
    let texts = json_texts(items);
    assert(texts.push(json_text(item)).drop_last() == texts);
    if items.len() > 0 {
        assert(json_text(JsonView::Array(items)).drop_last() == seq!['['] + joined(texts));
        assert(json_text(JsonView::Array(items.push(item))) == json_text(
            JsonView::Array(items),
        ).drop_last() + seq![','] + json_text(item) + seq![']']);
    }
}

proof fn lemma_json_texts_len(items: Seq<JsonView>)
    ensures
        json_texts(items).len() == items.len(),
    decreases items.len(),
{
    if items.len() > 0 {
        lemma_json_texts_len(items.drop_last());
    }
}

proof fn lemma_field_texts(fields: Seq<(Seq<char>, JsonView)>)
    ensures
        field_texts(fields).len() == fields.len(),
        forall|i: int|
            0 <= i < fields.len() ==> (#[trigger] field_texts(fields)[i]) == (
                fields[i].0,
                json_text(fields[i].1),
            ),
    decreases fields.len(),
{
    if fields.len() > 0 {
        lemma_field_texts(fields.drop_last());
    }
}

proof fn lemma_ordered_stays<V>(list: Seq<(Seq<char>, V)>)
    requires
        in_order(list),
    ensures
        ordered(list) == list,
    decreases list.len(),
{
    if list.len() > 0 {
        let front = list.drop_last();
        let last = list.last();
        assert(forall|i: int| 0 <= i < front.len() ==> front[i] == list[i]);
        lemma_ordered_stays(front);
        assert(front.push(last) == list);
        if front.len() > 0 {
            assert(precedes(list[front.len() - 1].0, list[list.len() - 1].0));
            lemma_precedes_one_way(front.last().0, last.0);
        }
    }
}

proof fn lemma_precedes_one_way(a: Seq<char>, b: Seq<char>)
    requires
        precedes(a, b),
    ensures
        !precedes(b, a),
        a != b,
    decreases a.len(),
{
    lemma_precedes_irreflexive(a);
    if a.len() > 0 && b.len() > 0 && a[0] == b[0] {
        lemma_precedes_one_way(a.drop_first(), b.drop_first());
    }
}

/// An object whose names are in order is written between braces, each field as
/// the name, a colon and the value; one more field, with a later name, comes
/// after a comma.
pub proof fn objects_are_written_field_by_field(
    fields: Seq<(Seq<char>, JsonView)>,
    name: Seq<char>,
    value: JsonView,
)
    requires
        in_order(fields.push((name, value))),
    ensures
        json_text(JsonView::Object(Seq::empty())) == "{}"@,
        ({
            let member = json_text(JsonView::Text(name)) + seq![':'] + json_text(value);
            let text = json_text(JsonView::Object(fields.push((name, value))));
            if fields.len() == 0 {
                text == seq!['{'] + member + seq!['}']
            } else {
                text == json_text(JsonView::Object(fields)).drop_last() + seq![','] + member
                    + seq!['}']
            }
        }),
{
    reveal_strlit("{}");
    let none = Seq::<(Seq<char>, JsonView)>::empty();
    assert(ordered(field_texts(none)) == Seq::<(Seq<char>, Seq<char>)>::empty());
    assert(members(Seq::<(Seq<char>, Seq<char>)>::empty()) == Seq::<Seq<char>>::empty());
    assert(json_text(JsonView::Object(none)) == "{}"@);
    let longer = fields.push((name, value));
    assert(longer.drop_last() == fields);
    assert(forall|i: int| 0 <= i < fields.len() ==> fields[i] == longer[i]);
    lemma_field_texts(longer);
    lemma_field_texts(fields);
    let texts = field_texts(fields);
    let more = field_texts(longer);
    assert(in_order(more)) by {
        assert forall|i: int, j: int| 0 <= i < j < more.len() implies precedes(
            (#[trigger] more[i]).0,
            (#[trigger] more[j]).0,
        ) by {
            assert(precedes(longer[i].0, longer[j].0));
        }
    }
    assert(in_order(texts)) by {
        assert forall|i: int, j: int| 0 <= i < j < texts.len() implies precedes(
            (#[trigger] texts[i]).0,
            (#[trigger] texts[j]).0,
        ) by {
            assert(precedes(longer[i].0, longer[j].0));
        }
    }
    lemma_ordered_stays(texts);
    lemma_ordered_stays(more);
    let member = json_text(JsonView::Text(name)) + seq![':'] + json_text(value);
    assert(members(more).drop_last() == members(texts));
    assert(members(more).last() == member);
    if fields.len() > 0 {
        assert(json_text(JsonView::Object(fields)).drop_last() == seq!['{'] + joined(
            members(texts),
        ));
        assert(json_text(JsonView::Object(longer)) == json_text(
            JsonView::Object(fields),
        ).drop_last() + seq![','] + member + seq!['}']);
    }
}

/// The text of an object does not depend on the order in which it lists its
/// fields, nor on fields that a later one of the same name hides.
pub proof fn text_shows_what_counts(fields: Seq<(Seq<char>, JsonView)>)
    ensures
        json_text(JsonView::Object(fields)) == json_text(JsonView::Object(ordered(fields))),
{
    order_keeps_fields(fields, Seq::empty());
    lemma_ordered_texts(fields);
    let list = ordered(fields);
    let texts = field_texts(list);
    lemma_field_texts(list);
    assert(in_order(texts)) by {
        assert forall|i: int, j: int| 0 <= i < j < texts.len() implies precedes(
            (#[trigger] texts[i]).0,
            (#[trigger] texts[j]).0,
        ) by {
            assert(precedes(list[i].0, list[j].0));
        }
    }
    lemma_ordered_stays(texts);
}

proof fn lemma_put_texts(list: Seq<(Seq<char>, JsonView)>, name: Seq<char>, value: JsonView)
    ensures
        field_texts(put(list, name, value)) == put(field_texts(list), name, json_text(value)),
    decreases list.len(),
{
    lemma_field_texts(list);
    if list.len() > 0 {
        let front = list.drop_last();
        lemma_field_texts(front);
        assert(field_texts(list).drop_last() == field_texts(front));
        if precedes(name, list.last().0) {
            lemma_put_texts(front, name, value);
            assert(put(front, name, value).push(list.last()).drop_last() == put(
                front,
                name,
                value,
            ));
        } else if list.last().0 == name {
            assert(front.push((name, value)).drop_last() == front);
        } else {
            assert(list.push((name, value)).drop_last() == list);
        }
    } else {
        assert(list.push((name, value)).drop_last() == list);
    }
}

proof fn lemma_ordered_texts(fields: Seq<(Seq<char>, JsonView)>)
    ensures
        field_texts(ordered(fields)) == ordered(field_texts(fields)),
    decreases fields.len(),
{
    lemma_field_texts(fields);
    if fields.len() > 0 {
        let front = fields.drop_last();
        lemma_field_texts(front);
        lemma_ordered_texts(front);
        lemma_put_texts(ordered(front), fields.last().0, fields.last().1);
        assert(field_texts(fields).drop_last() == field_texts(front));
    }
}

/// Names are in the order of their characters, as in a dictionary: the first
/// character that differs decides, and a beginning comes before the whole.
pub proof fn names_are_in_dictionary_order(
    common: Seq<char>,
    a: Seq<char>,
    b: Seq<char>,
)
    requires
        b.len() > 0,
        a.len() == 0 || a[0] != b[0],
    ensures
        precedes(common + a, common + b) <==> a.len() == 0 || a[0] < b[0],
        !precedes(common, common),
    decreases common.len(),
{
    lemma_precedes_irreflexive(common);
    if common.len() > 0 {
        names_are_in_dictionary_order(common.drop_first(), a, b);
        assert((common + a).drop_first() == common.drop_first() + a);
        assert((common + b).drop_first() == common.drop_first() + b);
    } else {
        assert(common + a == a);
        assert(common + b == b);
    }
}

}
