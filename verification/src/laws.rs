//! What holds of the library as a whole: how its operations fit together.

use vstd::prelude::*;

use crate::client::ClientView;
use crate::comments::comment;
use crate::error::ErrorView;
use crate::feed::{
    LookupStepView, PostLookupView, carries_activity_id, first_match, highlighted_path,
    not_found_message, post_in, post_lookup, update_metadata, update_types,
};
use crate::json::{JsonView, lemma_entry_field, lemma_with_field, object};
use crate::media::{
    byte_range, last_byte, media_payload, media_type, recipes_of, status_type_of,
};
use crate::order::{ordered, precedes, put};
use crate::reactions::{
    PAGE_SIZE, ReactionPagerView, checked_reaction, page_elements, page_total, pager, reaction,
    reaction_types,
};
use crate::request::success;
use crate::share::{
    ShareInput, illustrated_post, is_lifecycle, is_ready, is_visibility, mutation_body,
    plain_post, share_body, share_key, share_request, timed_post,
};
use crate::text::{
    all_ascii, all_digits, ascii_lower, ascii_lower_char, ascii_upper, capital, decimal, digits_value, is_digit, numeral_value,
    replaced, split_on, without_prefix,
};
use crate::upload::{
    MULTIPART_THRESHOLD, MediaFileView, MediaWaitView, MultipartUploadView, SingleUploadView,
    UploadPlanView, accepted_file, metadata_request, metadata_type, part_range, part_url,
    text_or_empty, upload_identity, upload_plan, verdict,
};

verus! {

// ---------------------------------------------------------------------------
// JSON

/// A field that was set reads back as it was set, and the other fields read as
/// before.
pub proof fn set_field_reads_back(
    json: JsonView,
    key: Seq<char>,
    value: JsonView,
    other: Seq<char>,
)
    requires
        json.takes_fields(),
    ensures
        json.with(key, value).field(key) == Some(value),
        other != key ==> json.with(key, value).field(other) == json.field(other),
{
    lemma_with_field(json, key, value, key);
    lemma_with_field(json, key, value, other);
}

pub(crate) proof fn lemma_precedes_irreflexive(a: Seq<char>)
    ensures
        !precedes(a, a),
    decreases a.len(),
{
    if a.len() > 0 {
        lemma_precedes_irreflexive(a.drop_first());
    }
}

proof fn lemma_precedes_transitive(a: Seq<char>, b: Seq<char>, c: Seq<char>)
    requires
        precedes(a, b),
        precedes(b, c),
    ensures
        precedes(a, c),
    decreases a.len(),
{
    if a.len() > 0 && a[0] == b[0] && b[0] == c[0] {
        lemma_precedes_transitive(a.drop_first(), b.drop_first(), c.drop_first());
    }
}

proof fn lemma_precedes_total(a: Seq<char>, b: Seq<char>)
    requires
        a != b,
    ensures
        precedes(a, b) || precedes(b, a),
    decreases a.len(),
{
    if a.len() > 0 && b.len() > 0 {
        if a[0] == b[0] {
            assert(seq![a[0]] + a.drop_first() == a);
            assert(seq![b[0]] + b.drop_first() == b);
            lemma_precedes_total(a.drop_first(), b.drop_first());
        }
    } else {
        assert(a.len() == 0 && b.len() == 0 ==> a == b);
    }
}

/// Whether each name in a list stands before those after it.
pub open spec fn in_order<V>(list: Seq<(Seq<char>, V)>) -> bool {
    forall|i: int, j: int|
        0 <= i < j < list.len() ==> precedes((#[trigger] list[i]).0, (#[trigger] list[j]).0)
}

proof fn lemma_put_in_order(list: Seq<(Seq<char>, JsonView)>, name: Seq<char>, value: JsonView)
    requires
        in_order(list),
    ensures
        in_order(put(list, name, value)),
        forall|i: int|
            0 <= i < put(list, name, value).len() ==> (#[trigger] put(list, name, value)[i]).0
                == name || exists|j: int|
                0 <= j < list.len() && (#[trigger] list[j]).0 == put(list, name, value)[i].0,
    decreases list.len(),
{
    let longer = put(list, name, value);
    if list.len() == 0 {
    } else {
        let front = list.drop_last();
        let last = list.last();
        assert(forall|j: int| 0 <= j < front.len() ==> front[j] == list[j]);
        assert(list[list.len() - 1] == last);
        if precedes(name, last.0) {
            lemma_put_in_order(front, name, value);
            let shorter = put(front, name, value);
            assert forall|i: int| 0 <= i < shorter.len() implies precedes(
                (#[trigger] shorter[i]).0,
                last.0,
            ) by {
                if shorter[i].0 != name {
                    let j = choose|j: int|
                        0 <= j < front.len() && (#[trigger] front[j]).0 == shorter[i].0;
                    assert(list[j].0 == shorter[i].0);
                }
            }
            assert forall|i: int| 0 <= i < longer.len() implies (#[trigger] longer[i]).0 == name
                || exists|j: int| 0 <= j < list.len() && (#[trigger] list[j]).0 == longer[i].0 by {
                if i < shorter.len() {
                    assert(longer[i] == shorter[i]);
                    if shorter[i].0 != name {
                        let j = choose|j: int|
                            0 <= j < front.len() && (#[trigger] front[j]).0 == shorter[i].0;
                        assert(list[j].0 == longer[i].0);
                    }
                } else {
                    assert(list[list.len() - 1].0 == longer[i].0);
                }
            }
        } else {
            assert forall|i: int, j: int| 0 <= i < j < longer.len() implies precedes(
                (#[trigger] longer[i]).0,
                (#[trigger] longer[j]).0,
            ) by {
                if last.0 != name {
                    lemma_precedes_total(name, last.0);
                    if j == longer.len() - 1 && i < list.len() - 1 {
                        lemma_precedes_transitive(list[i].0, last.0, name);
                    }
                }
                assert(i < list.len() ==> longer[i].0 == list[i].0);
                assert(j < list.len() ==> longer[j].0 == list[j].0);
            }
            assert forall|i: int| 0 <= i < longer.len() implies (#[trigger] longer[i]).0 == name
                || exists|j: int| 0 <= j < list.len() && (#[trigger] list[j]).0 == longer[i].0 by {
                if i < list.len() {
                    assert(list[i].0 == longer[i].0);
                }
            }
        }
    }
}

proof fn lemma_put_field(
    list: Seq<(Seq<char>, JsonView)>,
    name: Seq<char>,
    value: JsonView,
    key: Seq<char>,
)
    requires
        in_order(list),
    ensures
        JsonView::Object(put(list, name, value)).field(key) == if key == name {
            Some(value)
        } else {
            JsonView::Object(list).field(key)
        },
    decreases list.len(),
{
    let json = JsonView::Object(list);
    if list.len() == 0 {
        lemma_entry_field(json, name, value, key);
    } else {
        let front = list.drop_last();
        let last = list.last();
        assert(forall|j: int| 0 <= j < front.len() ==> front[j] == list[j]);
        assert(front.push(last) == list);
        lemma_entry_field(JsonView::Object(front), last.0, last.1, key);
        if precedes(name, last.0) {
            lemma_put_field(front, name, value, key);
            lemma_entry_field(JsonView::Object(put(front, name, value)), last.0, last.1, key);
            lemma_precedes_irreflexive(name);
        } else if last.0 == name {
            lemma_entry_field(JsonView::Object(front), name, value, key);
        } else {
            lemma_entry_field(json, name, value, key);
        }
    }
}

/// Putting the fields of an object in the order of their names leaves each name
/// once and changes no field.
pub proof fn order_keeps_fields(fields: Seq<(Seq<char>, JsonView)>, key: Seq<char>)
    ensures
        in_order(ordered(fields)),
        JsonView::Object(ordered(fields)).field(key) == JsonView::Object(fields).field(key),
    decreases fields.len(),
{
    if fields.len() > 0 {
        let front = fields.drop_last();
        let last = fields.last();
        order_keeps_fields(front, key);
        lemma_put_in_order(ordered(front), last.0, last.1);
        lemma_put_field(ordered(front), last.0, last.1, key);
        assert(front.push(last) == fields);
        lemma_entry_field(JsonView::Object(front), last.0, last.1, key);
    }
}

// ---------------------------------------------------------------------------
// Numerals and byte ranges

/// Reading the decimal numeral of a number gives the number back.
pub proof fn numeral_reads_back(n: nat)
    ensures
        numeral_value(decimal(n)) == Some(n),
{
    lemma_decimal_digits(n);
    lemma_no_plus(decimal(n));
}

proof fn lemma_decimal_digits(n: nat)
    ensures
        decimal(n).len() > 0,
        all_digits(decimal(n)),
        digits_value(decimal(n)) == n,
    decreases n,
{
    if n >= 10 {
        lemma_decimal_digits(n / 10);
        let front = decimal(n / 10);
        assert(decimal(n).drop_last() == front);
        assert forall|i: int| 0 <= i < decimal(n).len() implies is_digit(
            #[trigger] decimal(n)[i],
        ) by {
            if i < front.len() {
                assert(decimal(n)[i] == front[i]);
            }
        }
    } else {
        assert(decimal(n).drop_last() == Seq::<char>::empty());
        assert(digits_value(Seq::<char>::empty()) == 0);
    }
}

pub(crate) proof fn lemma_no_plus(digits: Seq<char>)
    requires
        digits.len() > 0,
        all_digits(digits),
    ensures
        without_prefix(digits, seq!['+']) == digits,
{
    if seq!['+'].is_prefix_of(digits) {
        assert(digits.subrange(0, 1)[0] == '+');
        assert(is_digit(digits[0]));
    }
}

proof fn lemma_split_without(s: Seq<char>, separator: char)
    requires
        !s.contains(separator),
    ensures
        split_on(s, separator) == seq![s],
    decreases s.len(),
{
    if s.len() > 0 {
        let front = s.drop_last();
        assert(!front.contains(separator)) by {
            assert forall|i: int| 0 <= i < front.len() implies front[i] != separator by {
                assert(s[i] == front[i]);
                assert(s.contains(s[i]));
            }
        }
        lemma_split_without(front, separator);
        assert(s.contains(s.last()));
        assert(split_on(s, separator) == seq![s]) by {
            assert(front.push(s.last()) == s);
        }
    } else {
        assert(s == Seq::<char>::empty());
    }
}

proof fn lemma_split_once(a: Seq<char>, separator: char, b: Seq<char>)
    requires
        !a.contains(separator),
        !b.contains(separator),
    ensures
        split_on(a.push(separator) + b, separator) == seq![a, b],
    decreases b.len(),
{
    let s = a.push(separator) + b;
    if b.len() == 0 {
        assert(b == Seq::<char>::empty());
        assert(s == a.push(separator));
        assert(s.drop_last() == a);
        lemma_split_without(a, separator);
        assert(split_on(s, separator) == seq![a, b]);
    } else {
        let front = b.drop_last();
        assert(!front.contains(separator)) by {
            assert forall|i: int| 0 <= i < front.len() implies front[i] != separator by {
                assert(b[i] == front[i]);
                assert(b.contains(b[i]));
            }
        }
        lemma_split_once(a, separator, front);
        assert(s.drop_last() == a.push(separator) + front);
        assert(b.contains(b.last()));
        assert(front.push(b.last()) == b);
        assert(split_on(s, separator) == seq![a, b]);
    }
}

proof fn lemma_digits_lack(digits: Seq<char>, c: char)
    requires
        all_digits(digits),
        !is_digit(c),
    ensures
        !digits.contains(c),
{
    assert forall|i: int| 0 <= i < digits.len() implies digits[i] != c by {
        assert(is_digit(digits[i]));
    }
}

/// A byte range written from two numbers reads back as those numbers, the last
/// one cut back to the last byte there is. The word in front is optional.
pub proof fn byte_range_reads_back(first: usize, last: usize, total: usize)
    ensures
        ({
            let bare = decimal(first as nat).push('-') + decimal(last as nat);
            let cut = if last <= last_byte(total) {
                last
            } else {
                last_byte(total)
            };
            &&& byte_range(bare, total) == Ok::<_, ErrorView>((first, cut))
            &&& byte_range("bytes "@ + bare, total) == Ok::<_, ErrorView>((first, cut))
        }),
{
    let a = decimal(first as nat);
    let b = decimal(last as nat);
    let bare = a.push('-') + b;
    let word = "bytes "@;
    lemma_decimal_digits(first as nat);
    lemma_decimal_digits(last as nat);
    numeral_reads_back(first as nat);
    numeral_reads_back(last as nat);
    lemma_digits_lack(a, '-');
    lemma_digits_lack(b, '-');
    lemma_split_once(a, '-', b);
    reveal_strlit("bytes ");
    assert(!word.is_prefix_of(bare)) by {
        if word.is_prefix_of(bare) {
            assert(bare.subrange(0, word.len() as int)[0] == bare[0]);
            assert(bare[0] == a[0]);
            assert(is_digit(a[0]));
        }
    }
    assert(word.is_prefix_of(word + bare)) by {
        assert((word + bare).subrange(0, word.len() as int) == word);
    }
    assert((word + bare).skip(word.len() as int) == bare);
}

/// The empty range stands for all bytes.
pub proof fn empty_range_is_the_whole_file(total: usize)
    requires
        total > 0,
    ensures
        byte_range(Seq::empty(), total) == Ok::<_, ErrorView>((0usize, (total - 1) as usize)),
{
}

/// The last index of a byte range that was accepted is that of a byte, where
/// there are any bytes.
pub proof fn byte_range_ends_inside(range: Seq<char>, total: usize)
    requires
        byte_range(range, total) is Ok,
        total > 0,
    ensures
        byte_range(range, total)->Ok_0.1 < total,
{
}

/// How many bytes there are decides only how far a range is cut back: whether
/// it is accepted, why it is not, and where it starts stay the same.
pub proof fn total_only_cuts_ranges_back(range: Seq<char>, total: usize, more: usize)
    requires
        total <= more,
    ensures
        match (byte_range(range, total), byte_range(range, more)) {
            (Ok(indices), Ok(wider)) => {
                &&& indices.0 == wider.0
                &&& indices.1 == if wider.1 <= last_byte(total) {
                    wider.1
                } else {
                    last_byte(total)
                }
            },
            (Err(error), Err(other)) => error == other,
            _ => false,
        },
{
}

// ---------------------------------------------------------------------------
// Media types

pub(crate) proof fn lemma_last_piece(front: Seq<char>, separator: char, piece: Seq<char>)
    requires
        !piece.contains(separator),
    ensures
        split_on(front.push(separator) + piece, separator).last() == piece,
    decreases piece.len(),
{
    let s = front.push(separator) + piece;
    if piece.len() == 0 {
        assert(s == front.push(separator));
        assert(piece == Seq::<char>::empty());
    } else {
        let shorter = piece.drop_last();
        assert forall|i: int| 0 <= i < shorter.len() implies shorter[i] != separator by {
            assert(piece[i] == shorter[i]);
            assert(piece.contains(piece[i]));
        }
        lemma_last_piece(front, separator, shorter);
        assert(s.drop_last() == front.push(separator) + shorter);
        assert(piece.contains(piece.last()));
        assert(shorter.push(piece.last()) == piece);
    }
}

/// Only what follows the last dot of a filename counts for its media type.
pub proof fn only_the_last_extension_counts(
    front: Seq<char>,
    other: Seq<char>,
    extension: Seq<char>,
)
    requires
        !extension.contains('.'),
    ensures
        media_type(front.push('.') + extension) is Ok <==> media_type(other.push('.') + extension)
            is Ok,
        media_type(front.push('.') + extension) is Ok ==> media_type(front.push('.') + extension)
            == media_type(other.push('.') + extension),
{
    lemma_last_piece(front, '.', extension);
    lemma_last_piece(other, '.', extension);
}

/// The status type under which an upload is polled fits the content type of the
/// file.
pub proof fn status_type_fits_content_type(filename: Seq<char>)
    requires
        media_type(filename) is Ok,
    ensures
        ({
            let types = media_type(filename)->Ok_0;
            &&& status_type_of(types.0) == "IMAGE"@ <==> "image/"@.is_prefix_of(types.1)
            &&& status_type_of(types.0) == "VIDEO"@ <==> "video/"@.is_prefix_of(types.1)
            &&& status_type_of(types.0) == "DOCUMENT_PREVIEW"@ <==> types.1 == "application/pdf"@
        }),
{
    reveal_strlit("image/");
    reveal_strlit("video/");
    reveal_strlit("image/png");
    reveal_strlit("image/jpeg");
    reveal_strlit("image/gif");
    reveal_strlit("image/webp");
    reveal_strlit("video/mp4");
    reveal_strlit("video/quicktime");
    reveal_strlit("video/x-m4v");
    reveal_strlit("video/webm");
    reveal_strlit("application/pdf");
    reveal_strlit("IMAGE_SHARING");
    reveal_strlit("VIDEO_SHARING");
    reveal_strlit("DOCUMENT_SHARING");
    reveal_strlit("IMAGE");
    reveal_strlit("VIDEO");
    reveal_strlit("DOCUMENT_PREVIEW");
    let types = media_type(filename)->Ok_0;
    assert("IMAGE_SHARING"@[0] == 'I' && "VIDEO_SHARING"@[0] == 'V' && "DOCUMENT_SHARING"@[0]
        == 'D');
    assert("IMAGE"@[0] == 'I' && "VIDEO"@[0] == 'V' && "DOCUMENT_PREVIEW"@[0] == 'D');
    assert(types.1.len() >= 6);
    let start = types.1.subrange(0, 6);
    assert(start[0] == types.1[0]);
    if types.0 == "IMAGE_SHARING"@ {
        assert(start == "image/"@);
    } else if types.0 == "VIDEO_SHARING"@ {
        assert(start == "video/"@);
    } else {
        assert(types.1[0] == 'a');
    }
}

proof fn lemma_lower_split(s: Seq<char>)
    ensures
        split_on(s, '.').len() > 0,
        split_on(ascii_lower(s), '.').len() == split_on(s, '.').len(),
        split_on(ascii_lower(s), '.').last() == ascii_lower(split_on(s, '.').last()),
    decreases s.len(),
{
    if s.len() == 0 {
        assert(ascii_lower(s) == s);
        assert(ascii_lower(Seq::<char>::empty()) == Seq::<char>::empty());
    } else {
        let front = s.drop_last();
        lemma_lower_split(front);
        let lower = ascii_lower(s);
        assert(lower.drop_last() == ascii_lower(front));
        assert(lower.last() == ascii_lower_char(s.last()));
        assert((lower.last() == '.') == (s.last() == '.'));
        let piece = split_on(front, '.').last();
        assert(ascii_lower(piece.push(s.last())) == ascii_lower(piece).push(lower.last()));
        assert(ascii_lower(Seq::<char>::empty()) == Seq::<char>::empty());
    }
}

/// The letter case of a filename does not matter to its media type.
pub proof fn media_type_ignores_case(filename: Seq<char>, other: Seq<char>)
    requires
        ascii_lower(filename) == ascii_lower(other),
    ensures
        media_type(filename) is Ok <==> media_type(other) is Ok,
        media_type(filename) is Ok ==> media_type(filename) == media_type(other),
{
    lemma_lower_split(filename);
    lemma_lower_split(other);
}

proof fn lemma_payload_keys()
    ensures
        "mediaUrn"@ != "category"@,
        "mediaUrn"@ != "recipes"@,
        "mediaUrn"@ != "nativeMediaSource"@,
        "mediaUrn"@ != "title"@,
        "recipes"@ != "nativeMediaSource"@,
        "recipes"@ != "title"@,
{
    reveal_strlit("mediaUrn");
    reveal_strlit("category");
    reveal_strlit("recipes");
    reveal_strlit("nativeMediaSource");
    reveal_strlit("title");
    assert("mediaUrn"@[0] != "category"@[0]);
    assert("mediaUrn"@.len() == 8 && "recipes"@.len() == 7 && "nativeMediaSource"@.len() == 17
        && "title"@.len() == 5);
}

/// Media of any accepted file type can be attached to a share, whatever the
/// title: what refers to them names their URN, and their own recipes where the
/// upload has any.
pub proof fn accepted_media_can_be_attached(
    filename: Seq<char>,
    media: JsonView,
    title: Option<Seq<char>>,
)
    requires
        media_type(filename) is Ok,
        media.text_at("media_upload_type"@) == Some(media_type(filename)->Ok_0.0),
        media.text_at("urn"@) is Some,
    ensures
        media_payload(media, title) is Ok,
        media_payload(media, title)->Ok_0.text_at("mediaUrn"@) == media.text_at("urn"@),
        media.field("recipes"@) is Some ==> media_payload(media, title)->Ok_0.field("recipes"@)
            == media.field("recipes"@),
{
    let upload_type = media.text_at("media_upload_type"@)->0;
    let urn = media.text_at("urn"@)->0;
    let recipes = recipes_of(media, upload_type);
    lemma_payload_keys();
    assert forall|category: JsonView, key: Seq<char>|
        key == "mediaUrn"@ || key == "recipes"@ implies (#[trigger] object().entry(
        "category"@,
        category,
    ).entry("mediaUrn"@, JsonView::Text(urn)).entry("recipes"@, recipes).field(key)) == Some(
        if key == "mediaUrn"@ {
            JsonView::Text(urn)
        } else {
            recipes
        },
    ) by {
        let one = object().entry("category"@, category);
        let two = one.entry("mediaUrn"@, JsonView::Text(urn));
        lemma_entry_field(one, "mediaUrn"@, JsonView::Text(urn), key);
        lemma_entry_field(two, "recipes"@, recipes, key);
    }
    let video = object()
        .entry("category"@, JsonView::Text("VIDEO"@))
        .entry("mediaUrn"@, JsonView::Text(urn))
        .entry("recipes"@, recipes);
    let document = object()
        .entry("category"@, JsonView::Text("NATIVE_DOCUMENT"@))
        .entry("mediaUrn"@, JsonView::Text(urn))
        .entry("recipes"@, recipes);
    let image = object()
        .entry("category"@, JsonView::Text("IMAGE"@))
        .entry("mediaUrn"@, JsonView::Text(urn))
        .entry("recipes"@, recipes);
    assert(image.field("mediaUrn"@) == Some(JsonView::Text(urn)));
    assert(image.field("recipes"@) == Some(recipes));
    assert(video.field("mediaUrn"@) == Some(JsonView::Text(urn)));
    assert(video.field("recipes"@) == Some(recipes));
    assert(document.field("mediaUrn"@) == Some(JsonView::Text(urn)));
    assert(document.field("recipes"@) == Some(recipes));
    let source = JsonView::Text("PRE_RECORDED"@);
    lemma_entry_field(video, "nativeMediaSource"@, source, "mediaUrn"@);
    lemma_entry_field(video, "nativeMediaSource"@, source, "recipes"@);
    if title is Some {
        lemma_entry_field(document, "title"@, JsonView::Text(title->0), "mediaUrn"@);
        lemma_entry_field(document, "title"@, JsonView::Text(title->0), "recipes"@);
    }
}

/// Accepted files of different upload types are polled under different status
/// types.
pub proof fn status_types_tell_upload_types_apart(filename: Seq<char>, other: Seq<char>)
    requires
        media_type(filename) is Ok,
        media_type(other) is Ok,
    ensures
        ({
            let upload_type = media_type(filename)->Ok_0.0;
            let other_type = media_type(other)->Ok_0.0;
            status_type_of(upload_type) == status_type_of(other_type) <==> upload_type
                == other_type
        }),
{
    reveal_strlit("IMAGE_SHARING");
    reveal_strlit("VIDEO_SHARING");
    reveal_strlit("DOCUMENT_SHARING");
    reveal_strlit("IMAGE");
    reveal_strlit("VIDEO");
    reveal_strlit("DOCUMENT_PREVIEW");
    assert("IMAGE_SHARING"@[0] == 'I' && "VIDEO_SHARING"@[0] == 'V' && "DOCUMENT_SHARING"@[0]
        == 'D');
    assert("IMAGE"@[0] == 'I' && "VIDEO"@[0] == 'V' && "DOCUMENT_PREVIEW"@[0] == 'D');
}

/// Only a document carries a title.
pub proof fn only_documents_have_titles(
    media: JsonView,
    title: Option<Seq<char>>,
    other: Option<Seq<char>>,
)
    requires
        media.text_at("media_upload_type"@) != Some("DOCUMENT_SHARING"@),
    ensures
        media_payload(media, title) == media_payload(media, other),
{
}

/// What refers to a document says the title where there is one, and nothing
/// else in it depends on the title.
pub proof fn only_the_title_follows_the_title(
    media: JsonView,
    title: Option<Seq<char>>,
    other: Option<Seq<char>>,
    key: Seq<char>,
)
    requires
        media.text_at("media_upload_type"@) == Some("DOCUMENT_SHARING"@),
        media.text_at("urn"@) is Some,
    ensures
        media_payload(media, title) is Ok,
        media_payload(media, other) is Ok,
        media_payload(media, title)->Ok_0.field("title"@) == match title {
            Some(title) => Some(JsonView::Text(title)),
            None => None,
        },
        key != "title"@ ==> media_payload(media, title)->Ok_0.field(key) == media_payload(
            media,
            other,
        )->Ok_0.field(key),
{
    reveal_strlit("DOCUMENT_SHARING");
    reveal_strlit("VIDEO_SHARING");
    assert("DOCUMENT_SHARING"@[0] != "VIDEO_SHARING"@[0]);
    reveal_strlit("category");
    reveal_strlit("mediaUrn");
    reveal_strlit("recipes");
    reveal_strlit("title");
    assert("category"@.len() == 8 && "mediaUrn"@.len() == 8 && "recipes"@.len() == 7
        && "title"@.len() == 5);
    let category = JsonView::Text("NATIVE_DOCUMENT"@);
    let urn = JsonView::Text(media.text_at("urn"@)->0);
    let recipes = recipes_of(media, "DOCUMENT_SHARING"@);
    let one = object().entry("category"@, category);
    let two = one.entry("mediaUrn"@, urn);
    let untitled = two.entry("recipes"@, recipes);
    lemma_entry_field(object(), "category"@, category, "title"@);
    lemma_entry_field(one, "mediaUrn"@, urn, "title"@);
    lemma_entry_field(two, "recipes"@, recipes, "title"@);
    if title is Some {
        lemma_entry_field(untitled, "title"@, JsonView::Text(title->0), "title"@);
        lemma_entry_field(untitled, "title"@, JsonView::Text(title->0), key);
    }
    if other is Some {
        lemma_entry_field(untitled, "title"@, JsonView::Text(other->0), key);
    }
}

// ---------------------------------------------------------------------------
// Uploads

/// An upload is announced in parts exactly where it is an image above the
/// threshold, and in one piece otherwise.
pub proof fn only_large_images_are_announced_in_parts(file: MediaFileView, size: usize)
    ensures
        metadata_request(file, size).body.text_at("uploadMetadataType"@) == Some(
            if file.upload_type == "IMAGE_SHARING"@ && size > MULTIPART_THRESHOLD {
                "MULTIPART"@
            } else {
                "SINGLE"@
            },
        ),
        metadata_request(file, size).body.unsigned_at("fileSize"@) == Some(size as u64),
{
    reveal_strlit("mediaUploadType");
    reveal_strlit("fileSize");
    reveal_strlit("hasOverlayImage");
    reveal_strlit("uploadMetadataType");
    reveal_strlit("filename");
    assert("fileSize"@.len() == 8 && "hasOverlayImage"@.len() == 15
        && "uploadMetadataType"@.len() == 18 && "filename"@.len() == 8);
    assert("fileSize"@[4] == 'S' && "filename"@[4] == 'n');
    let kind = JsonView::Text(metadata_type(file.upload_type, size));
    let a = object().entry("mediaUploadType"@, JsonView::Text(file.upload_type));
    let b = a.entry("fileSize"@, JsonView::Unsigned(size as u64));
    let c = b.entry("hasOverlayImage"@, JsonView::Bool(false));
    let d = c.entry("uploadMetadataType"@, kind);
    let name = JsonView::Text(file.filename);
    lemma_entry_field(c, "uploadMetadataType"@, kind, "uploadMetadataType"@);
    lemma_entry_field(d, "filename"@, name, "uploadMetadataType"@);
    lemma_entry_field(a, "fileSize"@, JsonView::Unsigned(size as u64), "fileSize"@);
    lemma_entry_field(b, "hasOverlayImage"@, JsonView::Bool(false), "fileSize"@);
    lemma_entry_field(c, "uploadMetadataType"@, kind, "fileSize"@);
    lemma_entry_field(d, "filename"@, name, "fileSize"@);
}

proof fn lemma_result_keys()
    ensures
        "media_upload_type"@ != "content_type"@,
        "media_upload_type"@ != "singleUploadStatus"@,
        "media_upload_type"@ != "multipartCompleted"@,
        "content_type"@ != "singleUploadStatus"@,
        "content_type"@ != "multipartCompleted"@,
        "urn"@ != "media_upload_type"@,
        "urn"@ != "content_type"@,
        "urn"@ != "singleUploadStatus"@,
        "urn"@ != "multipartCompleted"@,
{
    reveal_strlit("media_upload_type");
    reveal_strlit("content_type");
    reveal_strlit("singleUploadStatus");
    reveal_strlit("multipartCompleted");
    reveal_strlit("urn");
    assert("media_upload_type"@.len() == 17 && "content_type"@.len() == 12
        && "singleUploadStatus"@.len() == 18 && "multipartCompleted"@.len() == 18
        && "urn"@.len() == 3);
}

/// The metadata of an upload in one piece tell the URN and the type of the
/// media and the status of the upload, and are otherwise what the service sent.
pub proof fn single_upload_keeps_metadata(
    upload: SingleUploadView,
    status: u16,
    body: Seq<char>,
    key: Seq<char>,
)
    requires
        upload.wf(),
        success(status),
    ensures
        upload.result(status, body) is Ok,
        upload.result(status, body)->Ok_0.text_at("urn"@) is Some,
        upload.result(status, body)->Ok_0.text_at("urn"@) == upload.value.text_at("urn"@),
        upload.result(status, body)->Ok_0.text_at("media_upload_type"@) == Some(
            upload.upload_type,
        ),
        upload.result(status, body)->Ok_0.text_at("content_type"@) == Some(upload.content_type),
        upload.result(status, body)->Ok_0.unsigned_at("singleUploadStatus"@) == Some(
            status as u64,
        ),
        key != "media_upload_type"@ && key != "content_type"@ && key != "singleUploadStatus"@
            ==> upload.result(status, body)->Ok_0.field(key) == upload.value.field(key),
{
    lemma_result_keys();
    lemma_three_with(
        upload.value,
        ("media_upload_type"@, JsonView::Text(upload.upload_type)),
        ("content_type"@, JsonView::Text(upload.content_type)),
        ("singleUploadStatus"@, JsonView::Unsigned(status as u64)),
        key,
    );
    lemma_three_with(
        upload.value,
        ("media_upload_type"@, JsonView::Text(upload.upload_type)),
        ("content_type"@, JsonView::Text(upload.content_type)),
        ("singleUploadStatus"@, JsonView::Unsigned(status as u64)),
        "urn"@,
    );
}

proof fn lemma_three_with(
    json: JsonView,
    a: (Seq<char>, JsonView),
    b: (Seq<char>, JsonView),
    c: (Seq<char>, JsonView),
    key: Seq<char>,
)
    requires
        json.takes_fields(),
        a.0 != b.0,
        a.0 != c.0,
        b.0 != c.0,
    ensures
        json.with(a.0, a.1).with(b.0, b.1).with(c.0, c.1).field(a.0) == Some(a.1),
        json.with(a.0, a.1).with(b.0, b.1).with(c.0, c.1).field(b.0) == Some(b.1),
        json.with(a.0, a.1).with(b.0, b.1).with(c.0, c.1).field(c.0) == Some(c.1),
        key != a.0 && key != b.0 && key != c.0 ==> json.with(a.0, a.1).with(b.0, b.1).with(
            c.0,
            c.1,
        ).field(key) == json.field(key),
{
    let one = json.with(a.0, a.1);
    let two = one.with(b.0, b.1);
    assert forall|k: Seq<char>|
        #[trigger] two.with(c.0, c.1).field(k) == if k == c.0 {
            Some(c.1)
        } else if k == b.0 {
            Some(b.1)
        } else if k == a.0 {
            Some(a.1)
        } else {
            json.field(k)
        } by {
        lemma_with_field(json, a.0, a.1, k);
        lemma_with_field(one, b.0, b.1, k);
        lemma_with_field(two, c.0, c.1, k);
    }
}

/// The metadata of an upload in parts tell the URN and the type of the media
/// and that the upload is complete, and are otherwise what the service sent.
pub proof fn multipart_upload_keeps_metadata(upload: MultipartUploadView, key: Seq<char>)
    requires
        upload.wf(),
    ensures
        upload.result().text_at("urn"@) is Some,
        upload.result().text_at("urn"@) == upload.value.text_at("urn"@),
        upload.result().text_at("media_upload_type"@) == Some(upload.upload_type),
        upload.result().text_at("content_type"@) == Some(upload.content_type),
        upload.result().field("multipartCompleted"@) == Some(JsonView::Bool(true)),
        key != "media_upload_type"@ && key != "content_type"@ && key != "multipartCompleted"@
            ==> upload.result().field(key) == upload.value.field(key),
{
    lemma_result_keys();
    lemma_three_with(
        upload.value,
        ("media_upload_type"@, JsonView::Text(upload.upload_type)),
        ("content_type"@, JsonView::Text(upload.content_type)),
        ("multipartCompleted"@, JsonView::Bool(true)),
        key,
    );
    lemma_three_with(
        upload.value,
        ("media_upload_type"@, JsonView::Text(upload.upload_type)),
        ("content_type"@, JsonView::Text(upload.content_type)),
        ("multipartCompleted"@, JsonView::Bool(true)),
        "urn"@,
    );
}

/// What an upload in one piece ends with can be waited for and attached to a
/// share.
pub proof fn single_upload_can_be_shared(
    path: Seq<char>,
    filename: Seq<char>,
    value: JsonView,
    bytes: Seq<u8>,
    status: u16,
    body: Seq<char>,
    title: Option<Seq<char>>,
)
    requires
        accepted_file(path, true, Some(filename)) is Ok,
        upload_plan(accepted_file(path, true, Some(filename))->Ok_0, value, bytes) matches Ok(
            UploadPlanView::Single(_),
        ),
        success(status),
    ensures
        ({
            let file = accepted_file(path, true, Some(filename))->Ok_0;
            let media = upload_plan(file, value, bytes)->Ok_0->Single_0.result(status, body)->Ok_0;
            &&& upload_identity(media) == Ok::<_, ErrorView>(
                (value.text_at("urn"@)->0, file.upload_type),
            )
            &&& media_payload(media, title) is Ok
            &&& media_payload(media, title)->Ok_0.text_at("mediaUrn"@) == value.text_at("urn"@)
        }),
{
    let file = accepted_file(path, true, Some(filename))->Ok_0;
    let upload = upload_plan(file, value, bytes)->Ok_0->Single_0;
    lemma_result_keys();
    single_upload_keeps_metadata(upload, status, body, "urn"@);
    accepted_media_can_be_attached(filename, upload.result(status, body)->Ok_0, title);
}

/// What an upload in parts ends with can be waited for and attached to a
/// share.
pub proof fn multipart_upload_can_be_shared(
    filename: Seq<char>,
    upload: MultipartUploadView,
    title: Option<Seq<char>>,
)
    requires
        media_type(filename) is Ok,
        upload.wf(),
        upload.upload_type == media_type(filename)->Ok_0.0,
    ensures
        upload_identity(upload.result()) == Ok::<_, ErrorView>(
            (upload.value.text_at("urn"@)->0, upload.upload_type),
        ),
        media_payload(upload.result(), title) is Ok,
        media_payload(upload.result(), title)->Ok_0.text_at("mediaUrn"@) == upload.value.text_at(
            "urn"@,
        ),
{
    lemma_result_keys();
    multipart_upload_keeps_metadata(upload, "urn"@);
    accepted_media_can_be_attached(filename, upload.result(), title);
}

/// Every request that sends bytes leaves their type open.
pub proof fn uploads_leave_the_type_open(
    single: SingleUploadView,
    multipart: MultipartUploadView,
)
    ensures
        single.request().headers.len() > 0,
        single.request().headers[0] == ("content-type"@, "application/octet-stream"@),
        multipart.part_request() is Ok ==> {
            &&& multipart.part_request()->Ok_0.headers.len() > 0
            &&& multipart.part_request()->Ok_0.headers[0] == (
                "content-type"@,
                "application/octet-stream"@,
            )
        },
{
}

/// A part can give its place in the file as two numbers or as a byte range: the
/// same place reads the same.
pub proof fn both_forms_of_a_place_read_the_same(
    numbered: JsonView,
    ranged: JsonView,
    first: usize,
    last: usize,
    total: usize,
)
    requires
        last < total,
        numbered.unsigned_at("firstByte"@) == Some(first as u64),
        numbered.unsigned_at("lastByte"@) == Some(last as u64),
        ranged.unsigned_at("firstByte"@) is None || ranged.unsigned_at("lastByte"@) is None,
        ranged.text_at("byteRange"@) == Some(
            "bytes "@ + (decimal(first as nat).push('-') + decimal(last as nat)),
        ),
    ensures
        part_range(numbered, total) == Ok::<_, ErrorView>((first, last)),
        part_range(ranged, total) == part_range(numbered, total),
{
    byte_range_reads_back(first, last, total);
}

/// A part can name its address in two ways: the same address reads the same.
pub proof fn both_names_of_an_address_read_the_same(
    part: JsonView,
    older: JsonView,
    url: Seq<char>,
)
    requires
        part.text_at("uploadUrl"@) == Some(url),
        older.field("uploadUrl"@) is None,
        older.text_at("partUploadUrl"@) == Some(url),
    ensures
        part_url(part) == Some(url),
        part_url(older) == Some(url),
{
}

/// The completion of an upload in parts reports one answer for each part, each
/// of them a success.
pub proof fn completion_answers_every_part(upload: MultipartUploadView)
    requires
        upload.wf(),
        !upload.due(),
    ensures
        ({
            let request = upload.completion_request().body.field("completeUploadRequest"@);
            &&& request is Some
            &&& request->0.items_at("partUploadResponses"@) == Some(upload.responses)
            &&& upload.responses.len() == upload.parts().len()
            &&& forall|i: int|
                0 <= i < upload.responses.len() ==> (#[trigger] upload.responses[i]).unsigned_at(
                    "httpStatusCode"@,
                ) == Some(200u64)
        }),
{
    let inner = object()
        .entry("uploadMetadataType"@, JsonView::Text("MULTIPART"@))
        .entry(
            "multipartMetadata"@,
            JsonView::Text(text_or_empty(upload.value, "multipartMetadata"@)),
        )
        .entry(
            "mediaArtifactUrn"@,
            JsonView::Text(text_or_empty(upload.value, "mediaArtifactUrn"@)),
        );
    let responses = JsonView::Array(upload.responses);
    lemma_entry_field(inner, "partUploadResponses"@, responses, "partUploadResponses"@);
    lemma_entry_field(
        object(),
        "completeUploadRequest"@,
        inner.entry("partUploadResponses"@, responses),
        "completeUploadRequest"@,
    );
}

/// The bytes that the request for one of the parts sends.
pub open spec fn bytes_of_part(upload: MultipartUploadView, part: nat) -> Seq<u8> {
    let answers = Seq::new(part, |i: int| JsonView::Null);
    match (MultipartUploadView { responses: answers, ..upload }).part_request() {
        Ok(request) => request.body->Bytes_0,
        Err(_) => Seq::empty(),
    }
}

/// The bytes that the requests for the first `n` parts send, one after the
/// other.
pub open spec fn bytes_sent(upload: MultipartUploadView, n: nat) -> Seq<u8>
    decreases n,
{
    if n == 0 {
        Seq::empty()
    } else {
        bytes_sent(upload, (n - 1) as nat) + bytes_of_part(upload, (n - 1) as nat)
    }
}

/// Whether the parts have addresses and cover the file in order, without a gap
/// or an overlap.
pub open spec fn parts_tile_file(upload: MultipartUploadView) -> bool {
    let total = upload.bytes.len() as usize;
    let parts = upload.parts();
    &&& forall|i: int|
        0 <= i < parts.len() ==> {
            &&& part_url(#[trigger] parts[i]) is Some
            &&& part_range(parts[i], total) is Ok
            &&& part_range(parts[i], total)->Ok_0.0 == part_start(upload, i)
            &&& part_start(upload, i) <= part_range(parts[i], total)->Ok_0.1 + 1
                <= upload.bytes.len()
        }
    &&& part_start(upload, parts.len() as int) == upload.bytes.len()
}

/// The index of the byte that follows the part before the given one.
pub open spec fn part_start(upload: MultipartUploadView, part: int) -> int {
    if part == 0 {
        0
    } else {
        part_range(upload.parts()[part - 1], upload.bytes.len() as usize)->Ok_0.1 + 1
    }
}

/// Parts that cover the file without a gap or an overlap send it whole.
pub proof fn tiling_parts_send_the_file(upload: MultipartUploadView)
    requires
        parts_tile_file(upload),
    ensures
        bytes_sent(upload, upload.parts().len()) == upload.bytes,
{
    lemma_tiling_prefix(upload, upload.parts().len());
    assert(upload.bytes.take(upload.bytes.len() as int) == upload.bytes);
}

proof fn lemma_bytes_of_part(upload: MultipartUploadView, part: nat)
    requires
        part < upload.parts().len(),
        part_url(upload.parts()[part as int]) is Some,
        part_range(upload.parts()[part as int], upload.bytes.len() as usize) is Ok,
    ensures
        ({
            let range = part_range(
                upload.parts()[part as int],
                upload.bytes.len() as usize,
            )->Ok_0;
            bytes_of_part(upload, part) == upload.bytes.subrange(range.0 as int, range.1 + 1)
        }),
{
    let answers = Seq::new(part, |i: int| JsonView::Null);
    let state = MultipartUploadView { responses: answers, ..upload };
    assert(answers.len() == part);
    assert(state.parts() == upload.parts());
    assert(state.part() == upload.parts()[part as int]);
}

proof fn lemma_tile(upload: MultipartUploadView, part: nat)
    requires
        parts_tile_file(upload),
        part < upload.parts().len(),
    ensures
        part_url(upload.parts()[part as int]) is Some,
        part_range(upload.parts()[part as int], upload.bytes.len() as usize) is Ok,
        part_range(upload.parts()[part as int], upload.bytes.len() as usize)->Ok_0.0 == part_start(
            upload,
            part as int,
        ),
        part_range(upload.parts()[part as int], upload.bytes.len() as usize)->Ok_0.1 + 1
            == part_start(upload, (part + 1) as int),
        part_start(upload, part as int) <= part_start(upload, (part + 1) as int) <= upload.bytes.len(),
{
    assert(part_url(upload.parts()[part as int]) is Some);
}

#[verifier::spinoff_prover]
proof fn lemma_tiling_prefix(upload: MultipartUploadView, n: nat)
    requires
        parts_tile_file(upload),
        n <= upload.parts().len(),
    ensures
        0 <= part_start(upload, n as int) <= upload.bytes.len(),
        bytes_sent(upload, n) == upload.bytes.take(part_start(upload, n as int)),
    decreases n,
{
    if n > 0 {
        let before = (n - 1) as nat;
        lemma_tiling_prefix(upload, before);
        lemma_tile(upload, before);
        lemma_bytes_of_part(upload, before);
        let from = part_start(upload, before as int);
        let to = part_start(upload, n as int);
        assert(bytes_of_part(upload, before) == upload.bytes.subrange(from, to));
        lemma_take_more(upload.bytes, from, to);
    } else {
        assert(upload.bytes.take(0) == Seq::<u8>::empty());
    }
}

proof fn lemma_take_more(bytes: Seq<u8>, from: int, to: int)
    requires
        0 <= from <= to <= bytes.len(),
    ensures
        bytes.take(from) + bytes.subrange(from, to) == bytes.take(to),
{
}

// ---------------------------------------------------------------------------
// The wait for an upload

proof fn lemma_report_ok(status_type: JsonView, ok: bool, more: JsonView, last: JsonView)
    ensures
        ({
            let two = object()
                .entry("ok"@, JsonView::Bool(ok))
                .entry("mediaStatusType"@, status_type);
            &&& two.entry("last"@, last).field("ok"@) == Some(JsonView::Bool(ok))
            &&& two.entry("timeout_secs"@, more).entry("last"@, last).field("ok"@) == Some(
                JsonView::Bool(ok),
            )
            &&& two.entry("last"@, last).field("last"@) == Some(last)
            &&& two.entry("timeout_secs"@, more).entry("last"@, last).field("last"@) == Some(last)
        }),
{
    reveal_strlit("ok");
    reveal_strlit("mediaStatusType");
    reveal_strlit("timeout_secs");
    reveal_strlit("last");
    assert("ok"@.len() == 2 && "mediaStatusType"@.len() == 15 && "timeout_secs"@.len() == 12
        && "last"@.len() == 4);
    let one = object().entry("ok"@, JsonView::Bool(ok));
    let two = one.entry("mediaStatusType"@, status_type);
    let three = two.entry("timeout_secs"@, more);
    lemma_entry_field(object(), "ok"@, JsonView::Bool(ok), "ok"@);
    lemma_entry_field(one, "mediaStatusType"@, status_type, "ok"@);
    lemma_entry_field(two, "timeout_secs"@, more, "ok"@);
    lemma_entry_field(two, "last"@, last, "ok"@);
    lemma_entry_field(three, "last"@, last, "ok"@);
    lemma_entry_field(two, "last"@, last, "last"@);
    lemma_entry_field(three, "last"@, last, "last"@);
}

/// The report of a wait says that the media are ready exactly where the
/// service reported that, and it shows the state that the service reported
/// last. A wait that took too long reports that they are not ready.
pub proof fn report_tells_readiness(
    wait: MediaWaitView,
    state: JsonView,
    timeout_secs: u64,
)
    ensures
        wait.report(Some(state)) is Some <==> verdict(state) is Some,
        wait.report(Some(state)) is Some ==> {
            &&& is_ready(wait.report(Some(state))->0) == (verdict(state) == Some(true))
            &&& wait.report(Some(state))->0.field("last"@) == Some(state)
        },
        !is_ready(wait.expired(timeout_secs)),
        wait.expired(timeout_secs).field("last"@) == Some(wait.last),
{
    let status_type = JsonView::Text(wait.status_type);
    let secs = JsonView::Unsigned(timeout_secs);
    lemma_report_ok(status_type, true, secs, state);
    lemma_report_ok(status_type, false, secs, state);
    lemma_report_ok(status_type, false, secs, wait.last);
}

/// The wait after a run of requests, none of which settled it.
pub open spec fn waited(wait: MediaWaitView, states: Seq<Option<JsonView>>) -> MediaWaitView
    decreases states.len(),
{
    if states.len() == 0 {
        wait
    } else {
        waited(wait, states.drop_last()).observed(states.last())
    }
}

/// Requests that fail leave no trace in the wait: what it holds is the last
/// state that was reported.
pub proof fn wait_holds_last_state(
    wait: MediaWaitView,
    states: Seq<Option<JsonView>>,
    at: int,
)
    requires
        0 <= at < states.len(),
        states[at] is Some,
        forall|i: int| at < i < states.len() ==> (#[trigger] states[i]) is None,
    ensures
        waited(wait, states) == (MediaWaitView { last: states[at]->0, ..wait }),
    decreases states.len(),
{
    let before = states.drop_last();
    if at < states.len() - 1 {
        assert(states.last() is None);
        wait_holds_last_state(wait, before, at);
    } else {
        lemma_waited_keeps(wait, before);
    }
}

proof fn lemma_waited_keeps(wait: MediaWaitView, states: Seq<Option<JsonView>>)
    ensures
        waited(wait, states).path == wait.path,
        waited(wait, states).status_type == wait.status_type,
    decreases states.len(),
{
    if states.len() > 0 {
        lemma_waited_keeps(wait, states.drop_last());
    }
}

// ---------------------------------------------------------------------------
// Comments

/// A comment names the thread it is written into, and nothing else in it
/// depends on the thread. So a reply to a comment differs from a comment on a
/// post in the thread alone.
pub proof fn only_the_thread_tells_comments_apart(
    thread: Seq<char>,
    other: Seq<char>,
    text: Seq<char>,
    key: Seq<char>,
)
    ensures
        comment(thread, text).query_id == comment(other, text).query_id,
        comment(thread, text).query_name == comment(other, text).query_name,
        ({
            let entity = comment(thread, text).variables.field("entity"@);
            let other_entity = comment(other, text).variables.field("entity"@);
            &&& entity is Some
            &&& other_entity is Some
            &&& entity->0.text_at("threadUrn"@) == Some(thread)
            &&& key != "threadUrn"@ ==> entity->0.field(key) == other_entity->0.field(key)
        }),
{
    reveal_strlit("threadUrn");
    reveal_strlit("origin");
    assert("threadUrn"@.len() == 9 && "origin"@.len() == 6);
    let one = object().entry("commentary"@, object().entry("text"@, JsonView::Text(text)));
    let two = one.entry("threadUrn"@, JsonView::Text(thread));
    let other_two = one.entry("threadUrn"@, JsonView::Text(other));
    let origin = JsonView::Text("FEED"@);
    lemma_entry_field(one, "threadUrn"@, JsonView::Text(thread), "threadUrn"@);
    lemma_entry_field(two, "origin"@, origin, "threadUrn"@);
    lemma_entry_field(one, "threadUrn"@, JsonView::Text(thread), key);
    lemma_entry_field(one, "threadUrn"@, JsonView::Text(other), key);
    lemma_entry_field(two, "origin"@, origin, key);
    lemma_entry_field(other_two, "origin"@, origin, key);
    lemma_entry_field(object(), "entity"@, two.entry("origin"@, origin), "entity"@);
    lemma_entry_field(object(), "entity"@, other_two.entry("origin"@, origin), "entity"@);
}

// ---------------------------------------------------------------------------
// Reactions

proof fn lemma_reaction_types_are_capital(reaction_type: Seq<char>)
    requires
        reaction_types().contains(reaction_type),
    ensures
        capital(reaction_type) == reaction_type,
{
    reveal_strlit("LIKE");
    reveal_strlit("PRAISE");
    reveal_strlit("EMPATHY");
    reveal_strlit("INTEREST");
    reveal_strlit("APPRECIATION");
    reveal_strlit("ENTERTAINMENT");
    reveal_strlit("CELEBRATION");
    assert(ascii_upper("LIKE"@) == "LIKE"@);
    assert(ascii_upper("PRAISE"@) == "PRAISE"@);
    assert(ascii_upper("EMPATHY"@) == "EMPATHY"@);
    assert(ascii_upper("INTEREST"@) == "INTEREST"@);
    assert(ascii_upper("APPRECIATION"@) == "APPRECIATION"@);
    assert(ascii_upper("ENTERTAINMENT"@) == "ENTERTAINMENT"@);
    assert(ascii_upper("CELEBRATION"@) == "CELEBRATION"@);
}

/// A reaction type that was accepted is one of those that there are, and it is
/// accepted again as it came out.
pub proof fn accepted_reaction_is_stable(reaction_type: Seq<char>)
    requires
        checked_reaction(reaction_type, capital(reaction_type)) is Ok,
    ensures
        ({
            let accepted = checked_reaction(reaction_type, capital(reaction_type))->Ok_0;
            &&& reaction_types().contains(accepted)
            &&& checked_reaction(accepted, capital(accepted)) == Ok::<_, ErrorView>(accepted)
        }),
{
    lemma_reaction_types_are_capital(capital(reaction_type));
}

/// Every reaction that there is is accepted, in any ASCII letter case.
pub proof fn reactions_are_accepted_in_any_case(reaction_type: Seq<char>, written: Seq<char>)
    requires
        reaction_types().contains(reaction_type),
        all_ascii(written),
        ascii_upper(written) == reaction_type,
    ensures
        checked_reaction(written, capital(written)) == Ok::<_, ErrorView>(reaction_type),
{
}

/// A reaction names the thread and the type twice, on the top level and inside
/// `entity`, and both times the same.
pub proof fn reaction_names_thread_and_type_twice(thread: Seq<char>, reaction_type: Seq<char>)
    ensures
        ({
            let variables = reaction(thread, reaction_type).variables;
            &&& variables.text_at("threadUrn"@) == Some(thread)
            &&& variables.text_at("reactionType"@) == Some(reaction_type)
            &&& variables.field("entity"@) is Some
            &&& variables.field("entity"@)->0.text_at("threadUrn"@) == Some(thread)
            &&& variables.field("entity"@)->0.text_at("reactionType"@) == Some(reaction_type)
        }),
{
    reveal_strlit("threadUrn");
    reveal_strlit("reactionType");
    reveal_strlit("entity");
    assert("threadUrn"@.len() == 9 && "reactionType"@.len() == 12 && "entity"@.len() == 6);
    let one = object().entry("threadUrn"@, JsonView::Text(thread));
    let two = one.entry("reactionType"@, JsonView::Text(reaction_type));
    lemma_entry_field(object(), "threadUrn"@, JsonView::Text(thread), "threadUrn"@);
    lemma_entry_field(one, "reactionType"@, JsonView::Text(reaction_type), "threadUrn"@);
    lemma_entry_field(one, "reactionType"@, JsonView::Text(reaction_type), "reactionType"@);
    lemma_entry_field(two, "entity"@, two, "threadUrn"@);
    lemma_entry_field(two, "entity"@, two, "reactionType"@);
    lemma_entry_field(two, "entity"@, two, "entity"@);
}

/// The collection of reactors after a run of pages.
pub open spec fn collected(reactions: ReactionPagerView, pages: Seq<JsonView>) -> ReactionPagerView
    decreases pages.len(),
{
    if pages.len() == 0 {
        reactions
    } else {
        collected(reactions, pages.drop_last()).with_page(pages.last())
    }
}

/// The reactors on a run of pages.
pub open spec fn all_elements(pages: Seq<JsonView>) -> Seq<JsonView>
    decreases pages.len(),
{
    if pages.len() == 0 {
        Seq::empty()
    } else {
        all_elements(pages.drop_last()) + page_elements(pages.last())
    }
}

/// Whether each page was asked for, and holds no more than that.
pub open spec fn pages_answer_requests(reactions: ReactionPagerView, pages: Seq<JsonView>) -> bool
    decreases pages.len(),
{
    pages.len() > 0 ==> {
        let before = collected(reactions, pages.drop_last());
        &&& pages_answer_requests(reactions, pages.drop_last())
        &&& before.next_request() is Some
        &&& page_elements(pages.last()).len() <= before.batch()
    }
}

/// Whether each page was asked for, and holds as much as that.
pub open spec fn pages_are_full(reactions: ReactionPagerView, pages: Seq<JsonView>) -> bool
    decreases pages.len(),
{
    pages.len() > 0 ==> {
        let before = collected(reactions, pages.drop_last());
        &&& pages_are_full(reactions, pages.drop_last())
        &&& before.next_request() is Some
        &&& page_elements(pages.last()).len() == before.batch()
    }
}

/// No request asks for more reactors than a page holds or than are still
/// wanted.
pub proof fn requests_are_bounded(reactions: ReactionPagerView)
    requires
        reactions.wf(),
    ensures
        reactions.batch() <= PAGE_SIZE,
        !reactions.finished ==> reactions.elements.len() + reactions.batch() <= reactions.count,
        reactions.next_request() is None <==> reactions.finished || reactions.elements.len()
            == reactions.count,
{
}

/// The collection holds the reactors of the pages in order and no others, and
/// never more than the caller wants, as long as no page holds more than was
/// asked for.
pub proof fn collection_holds_the_pages(
    encoded_urn: Seq<char>,
    start: u32,
    count: u32,
    pages: Seq<JsonView>,
)
    requires
        pages_answer_requests(pager(encoded_urn, start, count), pages),
    ensures
        collected(pager(encoded_urn, start, count), pages).elements == all_elements(pages),
        all_elements(pages).len() <= count,
    decreases pages.len(),
{
    if pages.len() > 0 {
        collection_holds_the_pages(encoded_urn, start, count, pages.drop_last());
        lemma_collected_keeps(pager(encoded_urn, start, count), pages.drop_last());
    }
}

proof fn lemma_collected_keeps(reactions: ReactionPagerView, pages: Seq<JsonView>)
    ensures
        collected(reactions, pages).encoded_urn == reactions.encoded_urn,
        collected(reactions, pages).start == reactions.start,
        collected(reactions, pages).count == reactions.count,
    decreases pages.len(),
{
    if pages.len() > 0 {
        lemma_collected_keeps(reactions, pages.drop_last());
    }
}

/// Where each page is as full as was asked for, each request starts where the
/// reactors so far end: nobody is left out or listed twice.
pub proof fn full_pages_leave_no_gap(
    encoded_urn: Seq<char>,
    start: u32,
    count: u32,
    pages: Seq<JsonView>,
)
    requires
        pages_are_full(pager(encoded_urn, start, count), pages),
        start + count <= u32::MAX,
    ensures
        collected(pager(encoded_urn, start, count), pages).elements == all_elements(pages),
        collected(pager(encoded_urn, start, count), pages).next_start == start + all_elements(
            pages,
        ).len(),
        all_elements(pages).len() <= count,
    decreases pages.len(),
{
    if pages.len() > 0 {
        full_pages_leave_no_gap(encoded_urn, start, count, pages.drop_last());
        lemma_collected_keeps(pager(encoded_urn, start, count), pages.drop_last());
    }
}

/// Each page that was asked for either ends the collection or brings it nearer
/// to its end: no more requests are made than reactors are wanted.
pub proof fn collection_ends(
    encoded_urn: Seq<char>,
    start: u32,
    count: u32,
    pages: Seq<JsonView>,
)
    requires
        pages_answer_requests(pager(encoded_urn, start, count), pages),
    ensures
        pages.len() <= count,
        !collected(pager(encoded_urn, start, count), pages).finished ==> pages.len()
            <= all_elements(pages).len(),
    decreases pages.len(),
{
    collection_holds_the_pages(encoded_urn, start, count, pages);
    if pages.len() > 0 {
        collection_ends(encoded_urn, start, count, pages.drop_last());
        collection_holds_the_pages(encoded_urn, start, count, pages.drop_last());
        lemma_collected_keeps(pager(encoded_urn, start, count), pages.drop_last());
    }
}

/// The total in the list is the one that the first page to tell one told, or
/// the number of reactors in the list where none did.
pub proof fn first_total_counts(
    encoded_urn: Seq<char>,
    start: u32,
    count: u32,
    pages: Seq<JsonView>,
    at: int,
)
    requires
        -1 <= at < pages.len(),
        forall|i: int| 0 <= i < pages.len() && (i < at || at < 0) ==> page_total(
            #[trigger] pages[i],
        ) is None,
        at >= 0 ==> page_total(pages[at]) is Some,
    ensures
        collected(pager(encoded_urn, start, count), pages).total == if at < 0 {
            None
        } else {
            page_total(pages[at])
        },
    decreases pages.len(),
{
    if pages.len() > 0 {
        let before = pages.drop_last();
        assert(forall|i: int| 0 <= i < before.len() ==> before[i] == pages[i]);
        let there = if at == pages.len() - 1 {
            -1
        } else {
            at
        };
        assert forall|i: int| 0 <= i < before.len() && (i < there || there < 0) implies page_total(
            #[trigger] before[i],
        ) is None by {
            assert(before[i] == pages[i]);
        }
        first_total_counts(encoded_urn, start, count, before, there);
    }
}

/// The list of reactors holds the reactors that were collected and counts them,
/// and says where the caller wanted it to start.
pub proof fn list_counts_its_elements(reactions: ReactionPagerView)
    ensures
        reactions.result().items_at("elements"@) == Some(reactions.elements),
        reactions.result().field("paging"@) is Some,
        reactions.result().field("paging"@)->0.unsigned_at("start"@) == Some(
            reactions.start as u64,
        ),
        reactions.result().field("paging"@)->0.unsigned_at("count"@) == Some(
            reactions.elements.len() as u64,
        ),
        reactions.result().field("paging"@)->0.unsigned_at("total"@) == match reactions.total {
            Some(total) => Some(total),
            None => Some(reactions.elements.len() as u64),
        },
{
    reveal_strlit("elements");
    reveal_strlit("paging");
    reveal_strlit("start");
    reveal_strlit("count");
    reveal_strlit("total");
    assert("elements"@.len() == 8 && "paging"@.len() == 6);
    assert("start"@[0] == 's' && "count"@[0] == 'c' && "total"@[0] == 't');
    let elements = JsonView::Array(reactions.elements);
    let start = JsonView::Unsigned(reactions.start as u64);
    let count = JsonView::Unsigned(reactions.elements.len() as u64);
    let total = JsonView::Unsigned(
        match reactions.total {
            Some(total) => total,
            None => reactions.elements.len() as u64,
        },
    );
    let one = object().entry("start"@, start);
    let two = one.entry("count"@, count);
    let paging = two.entry("total"@, total);
    lemma_entry_field(object(), "start"@, start, "start"@);
    lemma_entry_field(one, "count"@, count, "start"@);
    lemma_entry_field(two, "total"@, total, "start"@);
    lemma_entry_field(one, "count"@, count, "count"@);
    lemma_entry_field(two, "total"@, total, "count"@);
    lemma_entry_field(two, "total"@, total, "total"@);
    let list = object().entry("elements"@, elements);
    lemma_entry_field(object(), "elements"@, elements, "elements"@);
    lemma_entry_field(list, "paging"@, paging, "elements"@);
    lemma_entry_field(list, "paging"@, paging, "paging"@);
}

// ---------------------------------------------------------------------------
// Shares

proof fn lemma_post_keys()
    ensures
        "allowedCommentersScope"@.len() == 22,
        "intendedShareLifeCycleState"@.len() == 27,
        "origin"@.len() == 6,
        "visibilityDataUnion"@.len() == 19,
        "commentary"@.len() == 10,
        "scheduledAt"@.len() == 11,
        "media"@.len() == 5,
        "SCHEDULED"@ != "PUBLISHED"@,
{
    reveal_strlit("allowedCommentersScope");
    reveal_strlit("intendedShareLifeCycleState");
    reveal_strlit("origin");
    reveal_strlit("visibilityDataUnion");
    reveal_strlit("commentary");
    reveal_strlit("scheduledAt");
    reveal_strlit("media");
    reveal_strlit("SCHEDULED");
    reveal_strlit("PUBLISHED");
    assert("SCHEDULED"@[0] != "PUBLISHED"@[0]);
}

proof fn lemma_plain_post_field(
    text: Seq<char>,
    visibility: Seq<char>,
    lifecycle: Seq<char>,
    key: Seq<char>,
)
    ensures
        key == "intendedShareLifeCycleState"@ ==> plain_post(text, visibility, lifecycle).field(key)
            == Some(JsonView::Text(lifecycle)),
        key == "visibilityDataUnion"@ ==> plain_post(text, visibility, lifecycle).field(key)
            == Some(object().entry("visibilityType"@, JsonView::Text(visibility))),
        key == "commentary"@ ==> plain_post(text, visibility, lifecycle).field(key) == Some(
            object()
                .entry("text"@, JsonView::Text(text))
                .entry("attributesV2"@, JsonView::Array(Seq::empty())),
        ),
        key == "scheduledAt"@ || key == "media"@ ==> plain_post(text, visibility, lifecycle).field(
            key,
        ) is None,
        plain_post(text, visibility, lifecycle) is Object,
{
    lemma_post_keys();
    let visible = object().entry("visibilityType"@, JsonView::Text(visibility));
    let commentary = object()
        .entry("text"@, JsonView::Text(text))
        .entry("attributesV2"@, JsonView::Array(Seq::empty()));
    let a = object().entry("allowedCommentersScope"@, JsonView::Text("ALL"@));
    let b = a.entry("intendedShareLifeCycleState"@, JsonView::Text(lifecycle));
    let c = b.entry("origin"@, JsonView::Text("FEED"@));
    let d = c.entry("visibilityDataUnion"@, visible);
    lemma_entry_field(object(), "allowedCommentersScope"@, JsonView::Text("ALL"@), key);
    lemma_entry_field(a, "intendedShareLifeCycleState"@, JsonView::Text(lifecycle), key);
    lemma_entry_field(b, "origin"@, JsonView::Text("FEED"@), key);
    lemma_entry_field(c, "visibilityDataUnion"@, visible, key);
    lemma_entry_field(d, "commentary"@, commentary, key);
}

/// The post inside the body of the mutation that creates a share.
pub open spec fn post_of(body: JsonView) -> JsonView {
    body.field("variables"@)->0.field("post"@)->0
}

/// How a share refers to its media, where it has any.
pub open spec fn attachment(input: ShareInput) -> Option<JsonView> {
    match input.media {
        Some((upload, title)) => Some(media_payload(upload, title)->Ok_0),
        None => None,
    }
}

proof fn lemma_post_of(post: JsonView)
    ensures
        mutation_body(post).field("variables"@) is Some,
        mutation_body(post).field("variables"@)->0.field("post"@) is Some,
        post_of(mutation_body(post)) == post,
        mutation_body(post).text_at("queryId"@) == Some(
            "voyagerContentcreationDashShares.279996efa5064c01775d5aff003d9377"@,
        ),
{
    reveal_strlit("variables");
    reveal_strlit("queryId");
    reveal_strlit("includeWebMetadata");
    assert("variables"@.len() == 9 && "queryId"@.len() == 7 && "includeWebMetadata"@.len() == 18);
    let variables = object().entry("post"@, post);
    let query_id = JsonView::Text(
        "voyagerContentcreationDashShares.279996efa5064c01775d5aff003d9377"@,
    );
    let one = object().entry("variables"@, variables);
    let two = one.entry("queryId"@, query_id);
    lemma_entry_field(object(), "post"@, post, "post"@);
    lemma_entry_field(object(), "variables"@, variables, "variables"@);
    lemma_entry_field(one, "queryId"@, query_id, "variables"@);
    lemma_entry_field(two, "includeWebMetadata"@, JsonView::Bool(true), "variables"@);
    lemma_entry_field(one, "queryId"@, query_id, "queryId"@);
    lemma_entry_field(two, "includeWebMetadata"@, JsonView::Bool(true), "queryId"@);
}

/// A share is refused exactly where its visibility or its state is unknown,
/// where it is scheduled without a time, or where its media cannot be attached.
pub proof fn share_is_owed(
    input: ShareInput,
    visibility: Seq<char>,
    lifecycle: Seq<char>,
)
    ensures
        share_body(input, visibility, lifecycle) is Ok <==> {
            &&& is_visibility(visibility)
            &&& is_lifecycle(lifecycle)
            &&& lifecycle == "SCHEDULED"@ ==> input.scheduled_at_ms is Some
            &&& match input.media {
                Some((upload, title)) => media_payload(upload, title) is Ok,
                None => true,
            }
        },
{
}

/// A share says what it was made of: the text, the visibility and the state,
/// and the media where there are any.
pub proof fn share_says_its_input(
    input: ShareInput,
    visibility: Seq<char>,
    lifecycle: Seq<char>,
)
    requires
        share_body(input, visibility, lifecycle) is Ok,
    ensures
        ({
            let post = post_of(share_body(input, visibility, lifecycle)->Ok_0);
            &&& post.text_at("intendedShareLifeCycleState"@) == Some(lifecycle)
            &&& post.field("visibilityDataUnion"@) is Some
            &&& post.field("visibilityDataUnion"@)->0.text_at("visibilityType"@) == Some(visibility)
            &&& post.field("commentary"@) is Some
            &&& post.field("commentary"@)->0.text_at("text"@) == Some(input.text)
            &&& post.field("media"@) == attachment(input)
        }),
{
    lemma_share_post(input, visibility, lifecycle);
    lemma_share_field(input, visibility, lifecycle, "intendedShareLifeCycleState"@);
    lemma_share_field(input, visibility, lifecycle, "visibilityDataUnion"@);
    lemma_share_field(input, visibility, lifecycle, "commentary"@);
    lemma_share_field(input, visibility, lifecycle, "media"@);
    lemma_plain_post_field(
        input.text,
        visibility,
        lifecycle,
        "intendedShareLifeCycleState"@,
    );
    lemma_plain_post_field(input.text, visibility, lifecycle, "visibilityDataUnion"@);
    lemma_plain_post_field(input.text, visibility, lifecycle, "commentary"@);
    lemma_plain_post_field(input.text, visibility, lifecycle, "media"@);
    lemma_post_keys();
    reveal_strlit("text");
    reveal_strlit("attributesV2");
    assert("text"@.len() == 4 && "attributesV2"@.len() == 12);
    let text = JsonView::Text(input.text);
    lemma_entry_field(object(), "text"@, text, "text"@);
    lemma_entry_field(
        object().entry("text"@, text),
        "attributesV2"@,
        JsonView::Array(Seq::empty()),
        "text"@,
    );
    lemma_entry_field(
        object(),
        "visibilityType"@,
        JsonView::Text(visibility),
        "visibilityType"@,
    );
}

/// A scheduled share carries its time; a published one carries none, even
/// where one was given.
pub proof fn only_scheduled_shares_have_times(
    input: ShareInput,
    visibility: Seq<char>,
    lifecycle: Seq<char>,
)
    requires
        share_body(input, visibility, lifecycle) is Ok,
    ensures
        ({
            let post = post_of(share_body(input, visibility, lifecycle)->Ok_0);
            if lifecycle == "SCHEDULED"@ {
                &&& input.scheduled_at_ms is Some
                &&& post.field("scheduledAt"@) == Some(
                    JsonView::integer(input.scheduled_at_ms->0 as int),
                )
            } else {
                post.field("scheduledAt"@) is None
            }
        }),
{
    lemma_share_post(input, visibility, lifecycle);
    lemma_share_field(input, visibility, lifecycle, "scheduledAt"@);
    lemma_plain_post_field(input.text, visibility, lifecycle, "scheduledAt"@);
    lemma_post_keys();
}

/// The post of an accepted share.
spec fn built_post(input: ShareInput, visibility: Seq<char>, lifecycle: Seq<char>) -> JsonView {
    illustrated_post(
        timed_post(
            plain_post(input.text, visibility, lifecycle),
            lifecycle,
            input.scheduled_at_ms,
        )->Ok_0,
        input.media,
    )->Ok_0
}

proof fn lemma_share_post(input: ShareInput, visibility: Seq<char>, lifecycle: Seq<char>)
    requires
        share_body(input, visibility, lifecycle) is Ok,
    ensures
        post_of(share_body(input, visibility, lifecycle)->Ok_0) == built_post(
            input,
            visibility,
            lifecycle,
        ),
{
    lemma_post_of(built_post(input, visibility, lifecycle));
}

proof fn lemma_share_field(
    input: ShareInput,
    visibility: Seq<char>,
    lifecycle: Seq<char>,
    key: Seq<char>,
)
    requires
        share_body(input, visibility, lifecycle) is Ok,
    ensures
        built_post(input, visibility, lifecycle).field(key) == if key == "media"@ && input.media
            is Some {
            attachment(input)
        } else if key == "scheduledAt"@ && lifecycle == "SCHEDULED"@ {
            Some(JsonView::integer(input.scheduled_at_ms->0 as int))
        } else {
            plain_post(input.text, visibility, lifecycle).field(key)
        },
{
    lemma_post_keys();
    let plain = plain_post(input.text, visibility, lifecycle);
    let timed = timed_post(plain, lifecycle, input.scheduled_at_ms)->Ok_0;
    lemma_plain_post_field(input.text, visibility, lifecycle, key);
    if lifecycle == "SCHEDULED"@ {
        lemma_entry_field(
            plain,
            "scheduledAt"@,
            JsonView::integer(input.scheduled_at_ms->0 as int),
            key,
        );
    }
    if input.media is Some {
        lemma_entry_field(timed, "media"@, attachment(input)->0, key);
    }
}

/// Every visibility that there is is accepted, in any ASCII letter case.
pub proof fn visibilities_are_accepted_in_any_case(visibility: Seq<char>, written: Seq<char>)
    requires
        is_visibility(visibility),
        all_ascii(written),
        ascii_upper(written) == visibility,
    ensures
        is_visibility(capital(written)),
        capital(written) == visibility,
{
}

/// The address to which a share is sent names the same query as its body.
pub proof fn address_and_body_name_one_query(client: ClientView, post: JsonView)
    ensures
        mutation_body(post).text_at("queryId"@) is Some,
        share_request(client, mutation_body(post)).url == client.url(
            "graphql?action=execute&queryId="@ + mutation_body(post).text_at("queryId"@)->0,
        ),
{
    lemma_post_of(post);
    reveal_strlit("graphql?action=execute&queryId=");
    reveal_strlit("voyagerContentcreationDashShares.279996efa5064c01775d5aff003d9377");
    reveal_strlit(
        "graphql?action=execute&queryId=voyagerContentcreationDashShares.279996efa5064c01775d5aff003d9377",
    );
    assert("graphql?action=execute&queryId="@
        + "voyagerContentcreationDashShares.279996efa5064c01775d5aff003d9377"@
        == "graphql?action=execute&queryId=voyagerContentcreationDashShares.279996efa5064c01775d5aff003d9377"@);
}

/// A share goes by the same name with and without the prefix of its URN.
pub proof fn share_prefix_is_optional(key: Seq<char>)
    ensures
        share_key("urn:li:fsd_share:"@ + key) == key,
        !"urn:li:fsd_share:"@.is_prefix_of(key) ==> share_key(key) == key,
{
    let prefix = "urn:li:fsd_share:"@;
    assert((prefix + key).subrange(0, prefix.len() as int) == prefix);
    assert((prefix + key).skip(prefix.len() as int) == key);
}

// ---------------------------------------------------------------------------
// The search for a post

/// Nothing in an element counts but the URN of the element and the two URNs in
/// its metadata.
pub proof fn only_the_named_places_count(element: JsonView, other: JsonView, id: Seq<char>)
    requires
        element.text_at("entityUrn"@) == other.text_at("entityUrn"@),
        match (update_metadata(element), update_metadata(other)) {
            (Some(metadata), Some(other_metadata)) => {
                &&& metadata.text_at("urn"@) == other_metadata.text_at("urn"@)
                &&& metadata.text_at("shareUrn"@) == other_metadata.text_at("shareUrn"@)
            },
            (None, None) => true,
            _ => false,
        },
    ensures
        carries_activity_id(element, id) == carries_activity_id(other, id),
{
}

/// What a search among the elements of a reply finds is the first of them that
/// is the post; it finds nothing exactly where none of them is.
pub proof fn search_finds_the_first(elements: Seq<JsonView>, id: Seq<char>)
    ensures
        first_match(elements, id) is None <==> forall|i: int|
            0 <= i < elements.len() ==> !carries_activity_id(#[trigger] elements[i], id),
        first_match(elements, id) is Some ==> exists|i: int|
            {
                &&& 0 <= i < elements.len()
                &&& first_match(elements, id) == Some(#[trigger] elements[i])
                &&& carries_activity_id(elements[i], id)
                &&& forall|j: int| 0 <= j < i ==> !carries_activity_id(#[trigger] elements[j], id)
            },
    decreases elements.len(),
{
    if elements.len() > 0 {
        let before = elements.drop_last();
        search_finds_the_first(before, id);
        assert(forall|i: int| 0 <= i < before.len() ==> before[i] == elements[i]);
        if first_match(before, id) is Some {
            let i = choose|i: int|
                {
                    &&& 0 <= i < before.len()
                    &&& first_match(before, id) == Some(#[trigger] before[i])
                    &&& carries_activity_id(before[i], id)
                    &&& forall|j: int| 0 <= j < i ==> !carries_activity_id(#[trigger] before[j], id)
                };
            assert(elements[i] == before[i]);
            assert forall|j: int| 0 <= j < i implies !carries_activity_id(
                #[trigger] elements[j],
                id,
            ) by {
                assert(before[j] == elements[j]);
            }
        } else {
            let last = elements.len() - 1;
            assert forall|j: int| 0 <= j < last implies !carries_activity_id(
                #[trigger] elements[j],
                id,
            ) by {
                assert(before[j] == elements[j]);
            }
            assert(elements.last() == elements[last]);
        }
    }
}

/// The post in a reply that may have failed.
pub open spec fn post_in_reply(reply: Option<JsonView>, id: Seq<char>) -> Option<JsonView> {
    match reply {
        Some(reply) => post_in(reply, id),
        None => None,
    }
}

/// The search after a run of replies.
pub open spec fn searched(lookup: PostLookupView, replies: Seq<Option<JsonView>>) -> PostLookupView
    decreases replies.len(),
{
    if replies.len() == 0 {
        lookup
    } else {
        searched(lookup, replies.drop_last()).after(replies.last())
    }
}

/// The search asks for the latest updates, then for each type of highlighted
/// update in turn, as long as the post was not in any reply; a failure counts
/// only where it is the first request that fails. So it makes five requests at
/// most, and says that the post is missing exactly after five without it.
pub proof fn search_takes_its_turns(
    urn: Seq<char>,
    activity_id: Seq<char>,
    replies: Seq<Option<JsonView>>,
    reply: Option<JsonView>,
)
    requires
        replies.len() <= 4,
        replies.len() > 0 ==> replies[0] is Some,
        forall|i: int|
            0 <= i < replies.len() ==> post_in_reply(#[trigger] replies[i], activity_id) is None,
    ensures
        ({
            let lookup = searched(post_lookup(urn, activity_id), replies);
            let n = replies.len();
            &&& lookup == (PostLookupView { urn, activity_id, attempt: n })
            &&& lookup.step(reply) == if post_in_reply(reply, activity_id) is Some {
                LookupStepView::Found(post_in_reply(reply, activity_id)->0)
            } else if reply is None && n == 0 {
                LookupStepView::PassOn
            } else if n < 4 {
                LookupStepView::Get(highlighted_path(urn, update_types()[n as int]))
            } else {
                LookupStepView::Missing(ErrorView::api(404, not_found_message(urn)))
            }
        }),
    decreases replies.len(),
{
    if replies.len() > 0 {
        let before = replies.drop_last();
        assert(forall|i: int| 0 <= i < before.len() ==> before[i] == replies[i]);
        search_takes_its_turns(urn, activity_id, before, replies.last());
        assert(replies.last() == replies[replies.len() - 1]);
    }
}

/// A URN in the path of a highlighted update has no colons left.
pub proof fn colons_are_replaced(urn: Seq<char>)
    ensures
        !replaced(urn, ':', "%3A"@).contains(':'),
    decreases urn.len(),
{
    reveal_strlit("%3A");
    if urn.len() > 0 {
        colons_are_replaced(urn.drop_last());
        let front = replaced(urn.drop_last(), ':', "%3A"@);
        let all = replaced(urn, ':', "%3A"@);
        assert forall|i: int| 0 <= i < all.len() implies all[i] != ':' by {
            if i < front.len() {
                assert(all[i] == front[i]);
                assert(front.contains(front[i]));
            }
        }
    }
}

}
