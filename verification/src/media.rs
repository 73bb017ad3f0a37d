//! Media files: their types, byte ranges, and the form in which a share
//! refers to one.

use vstd::prelude::*;

use crate::error::{Error, ErrorView, outcome};
use crate::json::{Json, JsonView, ObjectBuilder, models, object};
use crate::text::{
    ascii_lower, ascii_lowercase, chars_of, parse_usize, same_chars, same_text, split, split_on,
    strip, texts, usize_value, without_prefix,
};

verus! {

/// The upload type and the content type that go with a file extension, which
/// is in small letters.
pub open spec fn media_type_of(extension: Seq<char>) -> Option<(Seq<char>, Seq<char>)> {
    if extension == "png"@ {
        Some(("IMAGE_SHARING"@, "image/png"@))
    } else if extension == "jpg"@ || extension == "jpeg"@ {
        Some(("IMAGE_SHARING"@, "image/jpeg"@))
    } else if extension == "gif"@ {
        Some(("IMAGE_SHARING"@, "image/gif"@))
    } else if extension == "webp"@ {
        Some(("IMAGE_SHARING"@, "image/webp"@))
    } else if extension == "mp4"@ {
        Some(("VIDEO_SHARING"@, "video/mp4"@))
    } else if extension == "mov"@ {
        Some(("VIDEO_SHARING"@, "video/quicktime"@))
    } else if extension == "m4v"@ {
        Some(("VIDEO_SHARING"@, "video/x-m4v"@))
    } else if extension == "webm"@ {
        Some(("VIDEO_SHARING"@, "video/webm"@))
    } else if extension == "pdf"@ {
        Some(("DOCUMENT_SHARING"@, "application/pdf"@))
    } else {
        None
    }
}

/// What follows the last dot of a filename, or all of it where it has none.
pub open spec fn extension_of(filename: Seq<char>) -> Seq<char> {
    split_on(filename, '.').last()
}

/// The upload type and the content type of a file, by its extension in any
/// letter case.
pub open spec fn media_type(filename: Seq<char>) -> Result<(Seq<char>, Seq<char>), ErrorView> {
    match media_type_of(ascii_lower(extension_of(filename))) {
        Some(types) => Ok(types),
        None => Err(
            ErrorView::InvalidInput("unsupported LinkedIn media type for '"@ + filename + "'"@),
        ),
    }
}

fn is_text(chars: &Vec<char>, s: &str) -> (same: bool)
    ensures
        same == (chars@ == s@),
{
    same_chars(chars, &chars_of(s))
}

/// The upload type and the content type of a file, by its extension in any
/// letter case.
pub fn media_upload_type(filename: &str) -> (types: Result<(&'static str, &'static str), Error>)
    ensures
        match types {
            Ok(types) => media_type(filename@) == Ok::<_, ErrorView>((types.0@, types.1@)),
            Err(error) => media_type(filename@) == Err::<(Seq<char>, Seq<char>), _>(error@),
        },
{
    let pieces = split(filename, '.');
    proof {
        lemma_split_on_some(filename@, '.');
        assert(texts(pieces@).last() == pieces@.last()@);
    }
    let extension = ascii_lowercase(pieces[pieces.len() - 1]);
    if is_text(&extension, "png") {
        Ok(("IMAGE_SHARING", "image/png"))
    } else if is_text(&extension, "jpg") || is_text(&extension, "jpeg") {
        Ok(("IMAGE_SHARING", "image/jpeg"))
    } else if is_text(&extension, "gif") {
        Ok(("IMAGE_SHARING", "image/gif"))
    } else if is_text(&extension, "webp") {
        Ok(("IMAGE_SHARING", "image/webp"))
    } else if is_text(&extension, "mp4") {
        Ok(("VIDEO_SHARING", "video/mp4"))
    } else if is_text(&extension, "mov") {
        Ok(("VIDEO_SHARING", "video/quicktime"))
    } else if is_text(&extension, "m4v") {
        Ok(("VIDEO_SHARING", "video/x-m4v"))
    } else if is_text(&extension, "webm") {
        Ok(("VIDEO_SHARING", "video/webm"))
    } else if is_text(&extension, "pdf") {
        Ok(("DOCUMENT_SHARING", "application/pdf"))
    } else {
        let message = "unsupported LinkedIn media type for '".to_owned().concat(filename).concat("'");
        Err(Error::invalid(message))
    }
}

/// A split yields at least one piece.
proof fn lemma_split_on_some(s: Seq<char>, separator: char)
    ensures
        split_on(s, separator).len() >= 1,
    decreases s.len(),
{
    if s.len() > 0 {
        lemma_split_on_some(s.drop_last(), separator);
    }
}

/// The status type under which an upload of the given type is polled.
pub open spec fn status_type_of(upload_type: Seq<char>) -> Seq<char> {
    if upload_type == "DOCUMENT_SHARING"@ {
        "DOCUMENT_PREVIEW"@
    } else if upload_type == "VIDEO_SHARING"@ {
        "VIDEO"@
    } else {
        "IMAGE"@
    }
}

/// The status type under which an upload of the given type is polled.
pub fn media_status_type(upload_type: &str) -> (status_type: &'static str)
    ensures
        status_type@ == status_type_of(upload_type@),
{
    if same_text(upload_type, "DOCUMENT_SHARING") {
        "DOCUMENT_PREVIEW"
    } else if same_text(upload_type, "VIDEO_SHARING") {
        "VIDEO"
    } else {
        "IMAGE"
    }
}

/// The last index of `total` bytes; 0 where there are none.
pub open spec fn last_byte(total: usize) -> usize {
    if total == 0 {
        0
    } else {
        (total - 1) as usize
    }
}

/// The first and last index that a byte range such as `bytes 0-99` denotes,
/// the last one cut back to the last of `total` bytes. The empty string
/// denotes all bytes; the word `bytes ` may be left out.
pub open spec fn byte_range(range: Seq<char>, total: usize) -> Result<(usize, usize), ErrorView> {
    let pieces = split_on(without_prefix(range, "bytes "@), '-');
    if range.len() == 0 {
        Ok((0, last_byte(total)))
    } else if pieces.len() != 2 {
        Err(
            ErrorView::InvalidInput(
                "invalid byte range '"@ + range + "', expected 'start-end'"@,
            ),
        )
    } else {
        match (usize_value(pieces[0]), usize_value(pieces[1])) {
            (None, _) => Err(
                ErrorView::InvalidInput("invalid byte range start '"@ + pieces[0] + "'"@),
            ),
            (_, None) => Err(
                ErrorView::InvalidInput("invalid byte range end '"@ + pieces[1] + "'"@),
            ),
            (Some(start), Some(end)) => Ok(
                (
                    start,
                    if end <= last_byte(total) {
                        end
                    } else {
                        last_byte(total)
                    },
                ),
            ),
        }
    }
}

/// Reads a byte range such as `bytes 0-4194303` into the indices of its first
/// and last byte, the last one cut back to the last of `total` bytes. The
/// empty string stands for all bytes.
pub fn parse_byte_range(range: &str, total: usize) -> (indices: Result<(usize, usize), Error>)
    ensures
        outcome(indices) == byte_range(range@, total),
{
    let last: usize = if total == 0 {
        0
    } else {
        total - 1
    };
    if range.is_empty() {
        return Ok((0, last));
    }
    let pieces = split(strip(range, "bytes "), '-');
    assert(texts(pieces@).len() == pieces@.len());
    if pieces.len() != 2 {
        let message = "invalid byte range '".to_owned().concat(range).concat(
            "', expected 'start-end'",
        );
        return Err(Error::invalid(message));
    }
    assert(texts(pieces@)[0] == pieces@[0]@);
    assert(texts(pieces@)[1] == pieces@[1]@);
    let start = match parse_usize(pieces[0]) {
        Some(start) => start,
        None => {
            let message = "invalid byte range start '".to_owned().concat(pieces[0]).concat("'");
            return Err(Error::invalid(message));
        },
    };
    let end = match parse_usize(pieces[1]) {
        Some(end) => end,
        None => {
            let message = "invalid byte range end '".to_owned().concat(pieces[1]).concat("'");
            return Err(Error::invalid(message));
        },
    };
    if end <= last {
        Ok((start, end))
    } else {
        Ok((start, last))
    }
}

/// The characters of an optional string.
pub open spec fn text_option(s: Option<&str>) -> Option<Seq<char>> {
    match s {
        Some(s) => Some(s@),
        None => None,
    }
}

/// The processing recipes that apply to an upload type where the upload names
/// none.
pub open spec fn default_recipes(upload_type: Seq<char>) -> Seq<JsonView> {
    if upload_type == "VIDEO_SHARING"@ {
        seq![
            JsonView::Text("urn:li:digitalmediaRecipe:feedshare-video-captions-thumbnails-ambry"@),
            JsonView::Text("urn:li:digitalmediaRecipe:feedshare-video-auto-caption-public"@),
        ]
    } else if upload_type == "DOCUMENT_SHARING"@ {
        seq![
            JsonView::Text("urn:li:digitalmediaRecipe:feedshare-document-preview"@),
            JsonView::Text("urn:li:digitalmediaRecipe:feedshare-document"@),
        ]
    } else {
        seq![JsonView::Text("urn:li:digitalmediaRecipe:feedshare-image"@)]
    }
}

/// The recipes of an upload: its own, or else those of its type.
pub open spec fn recipes_of(media: JsonView, upload_type: Seq<char>) -> JsonView {
    match media.field("recipes"@) {
        Some(recipes) => recipes,
        None => JsonView::Array(default_recipes(upload_type)),
    }
}

/// How a share refers to uploaded media. Only a document carries the title.
pub open spec fn media_payload(media: JsonView, title: Option<Seq<char>>) -> Result<
    JsonView,
    ErrorView,
> {
    match (media.text_at("media_upload_type"@), media.text_at("urn"@)) {
        (None, _) => Err(
            ErrorView::InvalidInput("media metadata missing media_upload_type"@),
        ),
        (_, None) => Err(ErrorView::InvalidInput("media metadata missing urn"@)),
        (Some(upload_type), Some(urn)) => {
            let recipes = recipes_of(media, upload_type);
            if upload_type == "VIDEO_SHARING"@ {
                Ok(
                    object()
                        .entry("category"@, JsonView::Text("VIDEO"@))
                        .entry("mediaUrn"@, JsonView::Text(urn))
                        .entry("recipes"@, recipes)
                        .entry("nativeMediaSource"@, JsonView::Text("PRE_RECORDED"@)),
                )
            } else if upload_type == "DOCUMENT_SHARING"@ {
                let untitled = object()
                    .entry("category"@, JsonView::Text("NATIVE_DOCUMENT"@))
                    .entry("mediaUrn"@, JsonView::Text(urn))
                    .entry("recipes"@, recipes);
                Ok(
                    match title {
                        Some(title) => untitled.entry("title"@, JsonView::Text(title)),
                        None => untitled,
                    },
                )
            } else if upload_type == "IMAGE_SHARING"@ {
                Ok(
                    object()
                        .entry("category"@, JsonView::Text("IMAGE"@))
                        .entry("mediaUrn"@, JsonView::Text(urn))
                        .entry("recipes"@, recipes),
                )
            } else {
                Err(
                    ErrorView::InvalidInput(
                        "unsupported media_upload_type '"@ + upload_type + "'"@,
                    ),
                )
            }
        },
    }
}

/// The recipes of an upload: its own, or else those of its type.
fn recipes(media: &Json, upload_type: &str) -> (recipes: Json)
    ensures
        recipes@ == recipes_of(media@, upload_type@),
{
    if let Some(recipes) = media.get("recipes") {
        return recipes.copy();
    }
    let mut list: Vec<Json> = Vec::new();
    if same_text(upload_type, "VIDEO_SHARING") {
        list.push(
            Json::text("urn:li:digitalmediaRecipe:feedshare-video-captions-thumbnails-ambry"),
        );
        list.push(Json::text("urn:li:digitalmediaRecipe:feedshare-video-auto-caption-public"));
    } else if same_text(upload_type, "DOCUMENT_SHARING") {
        list.push(Json::text("urn:li:digitalmediaRecipe:feedshare-document-preview"));
        list.push(Json::text("urn:li:digitalmediaRecipe:feedshare-document"));
    } else {
        list.push(Json::text("urn:li:digitalmediaRecipe:feedshare-image"));
    }
    assert(models(list@) == default_recipes(upload_type@));
    Json::array(list)
}

/// Converts upload metadata into the `media` field of a share. Only a document
/// carries the title.
pub fn media_payload_from_upload(media: &Json, title: Option<&str>) -> (payload: Result<
    Json,
    Error,
>)
    ensures
        outcome(payload) == media_payload(media@, text_option(title)),
{
    let upload_type = match media.text_at("media_upload_type") {
        Some(upload_type) => upload_type,
        None => {
            return Err(Error::invalid("media metadata missing media_upload_type".to_owned()));
        },
    };
    let urn = match media.text_at("urn") {
        Some(urn) => urn,
        None => {
            return Err(Error::invalid("media metadata missing urn".to_owned()));
        },
    };
    let recipes = recipes(media, upload_type);
    if same_text(upload_type, "VIDEO_SHARING") {
        Ok(
            ObjectBuilder::new()
                .field("category", Json::text("VIDEO"))
                .field("mediaUrn", Json::text(urn))
                .field("recipes", recipes)
                .field("nativeMediaSource", Json::text("PRE_RECORDED"))
                .build(),
        )
    } else if same_text(upload_type, "DOCUMENT_SHARING") {
        let untitled = ObjectBuilder::new()
            .field("category", Json::text("NATIVE_DOCUMENT"))
            .field("mediaUrn", Json::text(urn))
            .field("recipes", recipes);
        match title {
            Some(title) => Ok(untitled.field("title", Json::text(title)).build()),
            None => Ok(untitled.build()),
        }
    } else if same_text(upload_type, "IMAGE_SHARING") {
        Ok(
            ObjectBuilder::new()
                .field("category", Json::text("IMAGE"))
                .field("mediaUrn", Json::text(urn))
                .field("recipes", recipes)
                .build(),
        )
    } else {
        let message = "unsupported media_upload_type '".to_owned().concat(upload_type).concat("'");
        Err(Error::invalid(message))
    }
}

}
