//! Uploads of media files: the single and the multipart flow, and the wait
//! until the service has processed an upload.

use vstd::prelude::*;
use vstd::slice::{slice_subrange, slice_to_vec};

use crate::client::LinkedInClient;
use crate::error::{Error, ErrorView, outcome};
use crate::json::{
    Field, Json, JsonView, ObjectBuilder, copy_all, field_models, lemma_entry_field, lemma_object_model,
    model_if_any, model_if_lent, models, object,
};
use crate::media::{
    byte_range, media_status_type, media_type, media_upload_type, parse_byte_range,
    status_type_of, text_option,
};
use crate::order::{named, ordered, put_in_order};
use crate::request::{
    ApiPost, ApiPostView, Body, BodyView, Header, HttpRequest, HttpRequestView, Method,
    header_models, is_success, success,
};
use crate::text::{decimal, push_decimal, same_text};

verus! {

/// The size in bytes above which an image is uploaded in parts.
pub const MULTIPART_THRESHOLD: usize = 1_000_000;

/// A media file that can be uploaded.
#[derive(Debug, PartialEq, Eq)]
pub struct MediaFile {
    pub filename: String,
    pub upload_type: &'static str,
    pub content_type: &'static str,
}

/// The model of a [`MediaFile`].
pub ghost struct MediaFileView {
    pub filename: Seq<char>,
    pub upload_type: Seq<char>,
    pub content_type: Seq<char>,
}

impl View for MediaFile {
    type V = MediaFileView;

    open spec fn view(&self) -> MediaFileView {
        MediaFileView {
            filename: self.filename@,
            upload_type: self.upload_type@,
            content_type: self.content_type@,
        }
    }
}

/// Which files can be uploaded: those that exist, have a filename, and have an
/// extension of a media type.
pub open spec fn accepted_file(
    path: Seq<char>,
    is_file: bool,
    filename: Option<Seq<char>>,
) -> Result<MediaFileView, ErrorView> {
    if !is_file {
        Err(ErrorView::InvalidInput("media file does not exist: "@ + path))
    } else {
        match filename {
            None => Err(ErrorView::InvalidInput("media path has no valid filename"@)),
            Some(filename) => match media_type(filename) {
                Ok(types) => Ok(
                    MediaFileView { filename, upload_type: types.0, content_type: types.1 },
                ),
                Err(error) => Err(error),
            },
        }
    }
}

/// The kind of upload to ask for: images above the threshold go in parts.
pub open spec fn metadata_type(upload_type: Seq<char>, size: usize) -> Seq<char> {
    if upload_type == "IMAGE_SHARING"@ && size > MULTIPART_THRESHOLD {
        "MULTIPART"@
    } else {
        "SINGLE"@
    }
}

/// The request that announces an upload of `size` bytes.
pub open spec fn metadata_request(file: MediaFileView, size: usize) -> ApiPostView {
    ApiPostView {
        path: "voyagerMediaUploadMetadata?action=upload"@,
        body: object()
            .entry("mediaUploadType"@, JsonView::Text(file.upload_type))
            .entry("fileSize"@, JsonView::Unsigned(size as u64))
            .entry("hasOverlayImage"@, JsonView::Bool(false))
            .entry("uploadMetadataType"@, JsonView::Text(metadata_type(file.upload_type, size)))
            .entry("filename"@, JsonView::Text(file.filename)),
    }
}

impl LinkedInClient {
    /// Accepts or refuses a file for upload. `path` names the file in the
    /// error message, `is_file` says whether it exists, and `filename` is the
    /// last component of the path where that is valid text.
    pub fn upload_media(&self, path: &str, is_file: bool, filename: Option<&str>) -> (file: Result<
        MediaFile,
        Error,
    >)
        ensures
            outcome(file) == accepted_file(path@, is_file, text_option(filename)),
    {
        if !is_file {
            return Err(Error::invalid("media file does not exist: ".to_owned().concat(path)));
        }
        let filename = match filename {
            Some(filename) => filename,
            None => {
                return Err(Error::invalid("media path has no valid filename".to_owned()));
            },
        };
        match media_upload_type(filename) {
            Ok((upload_type, content_type)) => Ok(
                MediaFile { filename: filename.to_owned(), upload_type, content_type },
            ),
            Err(error) => Err(error),
        }
    }
}

impl MediaFile {
    /// The request that announces the upload, given what reading the file
    /// gave: its bytes, or the reason why it could not be read.
    pub fn metadata_request(&self, read: &Result<Vec<u8>, String>) -> (request: Result<
        ApiPost,
        Error,
    >)
        ensures
            outcome(request) == match read {
                Ok(bytes) => Ok(metadata_request(self@, bytes@.len() as usize)),
                Err(reason) => Err(
                    ErrorView::InvalidInput("failed to read media file: "@ + reason@),
                ),
            },
    {
        let bytes = match read {
            Ok(bytes) => bytes,
            Err(reason) => {
                let message = "failed to read media file: ".to_owned().concat(reason.as_str());
                return Err(Error::invalid(message));
            },
        };
        let kind = if same_text(self.upload_type, "IMAGE_SHARING") && bytes.len()
            > MULTIPART_THRESHOLD {
            "MULTIPART"
        } else {
            "SINGLE"
        };
        let body = ObjectBuilder::new()
            .field("mediaUploadType", Json::text(self.upload_type))
            .field("fileSize", Json::Unsigned(bytes.len() as u64))
            .field("hasOverlayImage", Json::Bool(false))
            .field("uploadMetadataType", Json::text(kind))
            .field("filename", Json::text(self.filename.as_str()))
            .build();
        Ok(ApiPost { path: "voyagerMediaUploadMetadata?action=upload", body })
    }
}

/// The upload metadata inside the reply to the announcement.
pub open spec fn value_of_metadata(meta: JsonView) -> Result<JsonView, ErrorView> {
    match meta.field("value"@) {
        Some(value) => Ok(value),
        None => Err(ErrorView::api_about(200, "missing upload metadata value: "@, meta)),
    }
}

/// The upload metadata inside the reply to the announcement. Where there are
/// none, the error shows the reply.
pub fn upload_value(meta: &Json) -> (value: Result<Json, Error>)
    ensures
        outcome(value) == value_of_metadata(meta@),
{
    match meta.get("value") {
        Some(value) => Ok(value.copy()),
        None => Err(Error::api_about(200, "missing upload metadata value: ", meta)),
    }
}

/// An upload in one piece.
#[derive(Debug, PartialEq, Eq)]
pub struct SingleUpload {
    value: Json,
    bytes: Vec<u8>,
    upload_type: &'static str,
    content_type: &'static str,
}

/// The model of a [`SingleUpload`].
pub ghost struct SingleUploadView {
    /// The upload metadata that the service sent.
    pub value: JsonView,
    pub bytes: Seq<u8>,
    pub upload_type: Seq<char>,
    pub content_type: Seq<char>,
}

impl View for SingleUpload {
    type V = SingleUploadView;

    closed spec fn view(&self) -> SingleUploadView {
        SingleUploadView {
            value: self.value@,
            bytes: self.bytes@,
            upload_type: self.upload_type@,
            content_type: self.content_type@,
        }
    }
}

/// An upload in parts.
#[derive(Debug, PartialEq, Eq)]
pub struct MultipartUpload {
    value: Json,
    bytes: Vec<u8>,
    upload_type: &'static str,
    content_type: &'static str,
    responses: Vec<Json>,
}

/// The model of a [`MultipartUpload`].
pub ghost struct MultipartUploadView {
    /// The upload metadata that the service sent.
    pub value: JsonView,
    pub bytes: Seq<u8>,
    pub upload_type: Seq<char>,
    pub content_type: Seq<char>,
    /// What the service answered to the parts sent so far, in order.
    pub responses: Seq<JsonView>,
}

impl View for MultipartUpload {
    type V = MultipartUploadView;

    closed spec fn view(&self) -> MultipartUploadView {
        MultipartUploadView {
            value: self.value@,
            bytes: self.bytes@,
            upload_type: self.upload_type@,
            content_type: self.content_type@,
            responses: models(self.responses@),
        }
    }
}

/// How the bytes are to be sent.
#[derive(Debug, PartialEq, Eq)]
pub enum UploadPlan {
    Single(SingleUpload),
    Multipart(MultipartUpload),
}

/// The model of an [`UploadPlan`].
pub ghost enum UploadPlanView {
    Single(SingleUploadView),
    Multipart(MultipartUploadView),
}

impl View for UploadPlan {
    type V = UploadPlanView;

    open spec fn view(&self) -> UploadPlanView {
        match self {
            UploadPlan::Single(upload) => UploadPlanView::Single(upload@),
            UploadPlan::Multipart(upload) => UploadPlanView::Multipart(upload@),
        }
    }
}

/// The flow that the upload metadata ask for: in parts where they list any, in
/// one piece where they only give an address for that. Metadata that do not
/// name the media are refused, since nothing could be done with the upload.
pub open spec fn upload_plan(file: MediaFileView, value: JsonView, bytes: Seq<u8>) -> Result<
    UploadPlanView,
    ErrorView,
> {
    let parts = value.items_at("partUploadRequests"@);
    let in_parts = parts is Some && parts->0.len() > 0;
    if !in_parts && value.text_at("singleUploadUrl"@) is None {
        Err(ErrorView::api_about(200, "missing singleUploadUrl: "@, value))
    } else if value.text_at("urn"@) is None {
        Err(ErrorView::api_about(200, "missing urn: "@, value))
    } else if in_parts {
        Ok(
            UploadPlanView::Multipart(
                MultipartUploadView {
                    value,
                    bytes,
                    upload_type: file.upload_type,
                    content_type: file.content_type,
                    responses: Seq::empty(),
                },
            ),
        )
    } else {
        Ok(
            UploadPlanView::Single(
                SingleUploadView {
                    value,
                    bytes,
                    upload_type: file.upload_type,
                    content_type: file.content_type,
                },
            ),
        )
    }
}

impl UploadPlan {
    /// Whether the flow can go on from here.
    pub open spec fn wf(&self) -> bool {
        match self@ {
            UploadPlanView::Single(upload) => upload.wf(),
            UploadPlanView::Multipart(upload) => upload.wf(),
        }
    }
}

impl MediaFile {
    /// Decides how to send the bytes, by the upload metadata. Metadata without
    /// an address or a `urn` are refused; the error shows them.
    pub fn plan(&self, value: Json, bytes: Vec<u8>) -> (plan: Result<UploadPlan, Error>)
        ensures
            outcome(plan) == upload_plan(self@, value@, bytes@),
            plan is Ok ==> plan->Ok_0.wf(),
    {
        let in_parts = match value.items_at("partUploadRequests") {
            Some(parts) => parts.len() > 0,
            None => false,
        };
        if !in_parts && value.text_at("singleUploadUrl").is_none() {
            return Err(Error::api_about(200, "missing singleUploadUrl: ", &value));
        }
        if value.text_at("urn").is_none() {
            return Err(Error::api_about(200, "missing urn: ", &value));
        }
        if in_parts {
            let responses: Vec<Json> = Vec::new();
            assert(models(responses@) == Seq::<JsonView>::empty());
            return Ok(
                UploadPlan::Multipart(
                    MultipartUpload {
                        value,
                        bytes,
                        upload_type: self.upload_type,
                        content_type: self.content_type,
                        responses,
                    },
                ),
            );
        }
        Ok(
            UploadPlan::Single(
                SingleUpload {
                    value,
                    bytes,
                    upload_type: self.upload_type,
                    content_type: self.content_type,
                },
            ),
        )
    }
}

/// The fields of an object that hold strings, in order.
pub open spec fn text_fields(fields: Seq<(Seq<char>, JsonView)>) -> Seq<(Seq<char>, Seq<char>)>
    decreases fields.len(),
{
    if fields.len() == 0 {
        Seq::empty()
    } else {
        let before = text_fields(fields.drop_last());
        match fields.last().1 {
            JsonView::Text(value) => before.push((fields.last().0, value)),
            _ => before,
        }
    }
}

/// The headers that a JSON value lists: the fields of an object that hold
/// strings, in the order of their names.
pub open spec fn listed_headers(list: Option<JsonView>) -> Seq<(Seq<char>, Seq<char>)> {
    match list {
        Some(JsonView::Object(fields)) => text_fields(ordered(fields)),
        _ => Seq::empty(),
    }
}

/// The headers of a request that sends bytes: their type is left open, and
/// what the service lists is added.
pub open spec fn upload_headers(list: Option<JsonView>) -> Seq<(Seq<char>, Seq<char>)> {
    seq![("content-type"@, "application/octet-stream"@)] + listed_headers(list)
}

fn fields_in_order(fields: &Vec<Field>) -> (list: Vec<(String, &Json)>)
    ensures
        named(list@) == ordered(field_models(fields@)),
{
    let ghost all = field_models(fields@);
    let mut list: Vec<(String, &Json)> = Vec::new();
    assert(named(list@) == ordered(all.take(0)));
    for i in 0..fields.len()
        invariant
            all == field_models(fields@),
            named(list@) == ordered(all.take(i as int)),
    {
        assert(all.take(i + 1).drop_last() == all.take(i as int));
        assert(all.take(i + 1).last() == (fields@[i as int].name@, fields@[i as int].value@));
        put_in_order(&mut list, fields[i].name.as_str(), &fields[i].value);
    }
    assert(all.take(all.len() as int) == all);
    list
}

fn upload_header_list(list: Option<&Json>) -> (headers: Vec<Header>)
    ensures
        header_models(headers@) == upload_headers(model_if_lent(list)),
{
    let mut headers: Vec<Header> = Vec::new();
    headers.push(Header::new("content-type", "application/octet-stream"));
    let ghost first = seq![("content-type"@, "application/octet-stream"@)];
    assert(header_models(headers@) == first);
    assert(header_models(headers@) == first + Seq::<(Seq<char>, Seq<char>)>::empty());
    if let Some(Json::Object(fields)) = list {
        let list = fields_in_order(fields);
        let ghost all = ordered(field_models(fields@));
        proof {
            lemma_object_model(*fields);
            assert(text_fields(all.take(0)) == Seq::<(Seq<char>, Seq<char>)>::empty());
        }
        for i in 0..list.len()
            invariant
                all == named(list@),
                header_models(headers@) == first + text_fields(all.take(i as int)),
        {
            let ghost before = header_models(headers@);
            assert(all.take(i + 1).drop_last() == all.take(i as int));
            assert(all.take(i + 1).last() == (list@[i as int].0@, list@[i as int].1@));
            if let Json::Text(value) = list[i].1 {
                let header = Header::new(list[i].0.as_str(), value.as_str());
                headers.push(header);
                assert(header_models(headers@) == before.push((header.name@, header.value@)));
            }
        }
        assert(all.take(all.len() as int) == all);
    }
    headers
}

impl SingleUploadView {
    /// The metadata name the media and give an address.
    pub open spec fn wf(self) -> bool {
        &&& self.value.text_at("urn"@) is Some
        &&& self.value.text_at("singleUploadUrl"@) is Some
    }

    /// The request that sends the bytes.
    pub open spec fn request(self) -> HttpRequestView {
        HttpRequestView {
            method: Method::Put,
            url: self.value.text_at("singleUploadUrl"@)->0,
            headers: upload_headers(self.value.field("singleUploadHeaders"@)),
            body: BodyView::Bytes(self.bytes),
        }
    }

    /// The metadata of the finished upload, or the error that the answer is.
    pub open spec fn result(self, status: u16, body: Seq<char>) -> Result<JsonView, ErrorView> {
        if success(status) {
            Ok(
                self.value
                    .with("media_upload_type"@, JsonView::Text(self.upload_type))
                    .with("content_type"@, JsonView::Text(self.content_type))
                    .with("singleUploadStatus"@, JsonView::Unsigned(status as u64)),
            )
        } else {
            Err(
                ErrorView::api(
                    status,
                    "CDN single-upload failed ("@ + decimal(self.bytes.len()) + " bytes, status "@
                        + decimal(status as nat) + "): "@ + body,
                ),
            )
        }
    }
}

impl SingleUpload {
    /// The request that sends the bytes.
    pub fn request(&self) -> (request: HttpRequest)
        requires
            self@.wf(),
        ensures
            request@ == self@.request(),
            request.body@ == BodyView::Bytes(self@.bytes),
            self@.value.text_at("singleUploadUrl"@) == Some(request.url@),
    {
        let url = match self.value.text_at("singleUploadUrl") {
            Some(url) => url,
            None => "",
        };
        HttpRequest {
            method: Method::Put,
            url: url.to_owned(),
            headers: upload_header_list(self.value.get("singleUploadHeaders")),
            body: Body::Bytes(slice_to_vec(self.bytes.as_slice())),
        }
    }

    /// The metadata of the finished upload, or the error that the answer is.
    /// The body of the answer matters only where `status` is no success.
    pub fn reply(self, status: u16, body: &str) -> (result: Result<Json, Error>)
        requires
            self@.wf(),
        ensures
            outcome(result) == self@.result(status, body@),
    {
        if is_success(status) {
            return Ok(
                self.value
                    .with("media_upload_type", Json::text(self.upload_type))
                    .with("content_type", Json::text(self.content_type))
                    .with("singleUploadStatus", Json::Unsigned(status as u64)),
            );
        }
        let mut message = "CDN single-upload failed (".to_owned();
        push_decimal(&mut message, self.bytes.len() as u64);
        message.append(" bytes, status ");
        push_decimal(&mut message, status as u64);
        message.append("): ");
        message.append(body);
        Err(Error::api(status, message))
    }
}

/// The first of two fields that is there.
pub open spec fn either_field(json: JsonView, key: Seq<char>, other: Seq<char>) -> Option<JsonView> {
    match json.field(key) {
        Some(value) => Some(value),
        None => json.field(other),
    }
}

fn either<'a>(json: &'a Json, key: &str, other: &str) -> (value: Option<&'a Json>)
    ensures
        match value {
            Some(value) => either_field(json@, key@, other@) == Some(value@),
            None => either_field(json@, key@, other@) is None,
        },
{
    match json.get(key) {
        Some(value) => Some(value),
        None => json.get(other),
    }
}

/// The address of a part, under either of its names.
pub open spec fn part_url(part: JsonView) -> Option<Seq<char>> {
    match either_field(part, "uploadUrl"@, "partUploadUrl"@) {
        Some(url) => url.text(),
        None => None,
    }
}

/// The first and last byte of a part: two numbers, or else a byte range.
pub open spec fn part_range(part: JsonView, total: usize) -> Result<(usize, usize), ErrorView> {
    match (part.unsigned_at("firstByte"@), part.unsigned_at("lastByte"@)) {
        (Some(first), Some(last)) => Ok((first as usize, last as usize)),
        _ => byte_range(
            match part.text_at("byteRange"@) {
                Some(range) => range,
                None => Seq::empty(),
            },
            total,
        ),
    }
}

fn read_part_range(part: &Json, total: usize) -> (indices: Result<(usize, usize), Error>)
    ensures
        outcome(indices) == part_range(part@, total),
{
    match (part.unsigned_at("firstByte"), part.unsigned_at("lastByte")) {
        (Some(first), Some(last)) => Ok((first as usize, last as usize)),
        _ => match part.text_at("byteRange") {
            Some(range) => parse_byte_range(range, total),
            None => {
                proof {
                    reveal_strlit("");
                    assert(""@ == Seq::<char>::empty());
                }
                parse_byte_range("", total)
            },
        },
    }
}

/// Whether the bytes from `first` to `last` can be cut out of `total` bytes.
/// A range that ends just before it starts holds no bytes.
pub open spec fn in_bounds(first: usize, last: usize, total: nat) -> bool {
    first <= last + 1 && last < total
}

/// A header of an answer. The value is there only where it is valid text.
#[derive(Debug, PartialEq, Eq)]
pub struct ReplyHeader {
    pub name: String,
    pub value: Option<String>,
}

/// The names and values of the headers of an answer.
pub open spec fn reply_header_models(headers: Seq<ReplyHeader>) -> Seq<
    (Seq<char>, Option<Seq<char>>),
> {
    Seq::new(
        headers.len(),
        |i: int|
            (
                headers[i].name@,
                match headers[i].value {
                    Some(value) => Some(value@),
                    None => None,
                },
            ),
    )
}

/// The headers of an answer as an object. A later value of a name replaces an
/// earlier one, and a value that is not valid text is left out.
pub open spec fn headers_object(headers: Seq<(Seq<char>, Option<Seq<char>>)>) -> JsonView
    decreases headers.len(),
{
    if headers.len() == 0 {
        object()
    } else {
        let before = headers_object(headers.drop_last());
        match headers.last().1 {
            Some(value) => before.with(headers.last().0, JsonView::Text(value)),
            None => before,
        }
    }
}

fn collect_headers(headers: &Vec<ReplyHeader>) -> (json: Json)
    ensures
        json@ == headers_object(reply_header_models(headers@)),
{
    let mut json = ObjectBuilder::new().build();
    let ghost all = reply_header_models(headers@);
    for i in 0..headers.len()
        invariant
            all == reply_header_models(headers@),
            json@ == headers_object(all.take(i as int)),
            json@ is Object,
    {
        assert(all.take(i + 1).drop_last() == all.take(i as int));
        if let Some(value) = &headers[i].value {
            json = json.with(headers[i].name.as_str(), Json::text(value.as_str()));
        }
    }
    assert(all.take(all.len() as int) == all);
    json
}

/// What is kept of the answer to a part.
pub open spec fn part_response(
    status: u16,
    headers: Seq<(Seq<char>, Option<Seq<char>>)>,
    body: Seq<char>,
) -> JsonView {
    object()
        .entry("httpStatusCode"@, JsonView::Unsigned(status as u64))
        .entry("headers"@, headers_object(headers))
        .entry("body"@, JsonView::Text(body))
}

/// What is kept of the answer to a part tells its status.
proof fn lemma_part_response_status(
    status: u16,
    headers: Seq<(Seq<char>, Option<Seq<char>>)>,
    body: Seq<char>,
)
    ensures
        part_response(status, headers, body).unsigned_at("httpStatusCode"@) == Some(status as u64),
{
    reveal_strlit("httpStatusCode");
    reveal_strlit("headers");
    reveal_strlit("body");
    let key = "httpStatusCode"@;
    assert(key != "headers"@ && key != "body"@) by {
        assert(key.len() == 14 && "headers"@.len() == 7 && "body"@.len() == 4);
    }
    let first = object().entry(key, JsonView::Unsigned(status as u64));
    let second = first.entry("headers"@, headers_object(headers));
    lemma_entry_field(object(), key, JsonView::Unsigned(status as u64), key);
    lemma_entry_field(first, "headers"@, headers_object(headers), key);
    lemma_entry_field(second, "body"@, JsonView::Text(body), key);
}

/// The string in a field, or the empty string.
pub open spec fn text_or_empty(json: JsonView, key: Seq<char>) -> Seq<char> {
    match json.text_at(key) {
        Some(text) => text,
        None => Seq::empty(),
    }
}

fn text_or_blank<'a>(json: &'a Json, key: &str) -> (text: &'a str)
    ensures
        text@ == text_or_empty(json@, key@),
{
    match json.text_at(key) {
        Some(text) => text,
        None => {
            proof {
                reveal_strlit("");
                assert(""@ == Seq::<char>::empty());
            }
            ""
        },
    }
}

impl MultipartUploadView {
    /// The metadata name the media and list parts, no more parts have been
    /// answered than there are, and each answer reports success.
    pub open spec fn wf(self) -> bool {
        &&& self.value.text_at("urn"@) is Some
        &&& self.value.items_at("partUploadRequests"@) is Some
        &&& self.responses.len() <= self.parts().len()
        &&& forall|i: int|
            0 <= i < self.responses.len() ==> (#[trigger] self.responses[i]).unsigned_at(
                "httpStatusCode"@,
            ) == Some(200u64)
    }

    /// The parts that the service asks for, in order.
    pub open spec fn parts(self) -> Seq<JsonView> {
        self.value.items_at("partUploadRequests"@)->0
    }

    /// Whether a part is still to be sent.
    pub open spec fn due(self) -> bool {
        self.responses.len() < self.parts().len()
    }

    /// The part that is to be sent next.
    pub open spec fn part(self) -> JsonView {
        self.parts()[self.responses.len() as int]
    }

    /// Whether the bytes of the next part lie within the file, as far as the
    /// part says where they lie.
    pub open spec fn part_fits(self) -> bool {
        match (part_url(self.part()), part_range(self.part(), self.bytes.len() as usize)) {
            (Some(_), Ok(range)) => in_bounds(range.0, range.1, self.bytes.len()),
            _ => true,
        }
    }

    /// The request that sends the next part.
    pub open spec fn part_request(self) -> Result<HttpRequestView, ErrorView> {
        let part = self.part();
        match part_url(part) {
            None => Err(
                ErrorView::api_about(
                    200,
                    "part "@ + decimal(self.responses.len())
                        + " missing uploadUrl/partUploadUrl: "@,
                    part,
                ),
            ),
            Some(url) => match part_range(part, self.bytes.len() as usize) {
                Err(error) => Err(error),
                Ok(range) => Ok(
                    HttpRequestView {
                        method: Method::Put,
                        url,
                        headers: upload_headers(
                            either_field(part, "headers"@, "partUploadHeaders"@),
                        ),
                        body: BodyView::Bytes(self.bytes.subrange(range.0 as int, range.1 + 1)),
                    },
                ),
            },
        }
    }

    /// The upload with the answer to the next part.
    pub open spec fn answered(self, response: JsonView) -> MultipartUploadView {
        MultipartUploadView { responses: self.responses.push(response), ..self }
    }

    /// The request that tells the service that all parts are sent.
    pub open spec fn completion_request(self) -> ApiPostView {
        ApiPostView {
            path: "voyagerMediaUploadMetadata?action=completeMultipartUpload"@,
            body: object().entry(
                "completeUploadRequest"@,
                object()
                    .entry("uploadMetadataType"@, JsonView::Text("MULTIPART"@))
                    .entry(
                        "multipartMetadata"@,
                        JsonView::Text(text_or_empty(self.value, "multipartMetadata"@)),
                    )
                    .entry(
                        "mediaArtifactUrn"@,
                        JsonView::Text(text_or_empty(self.value, "mediaArtifactUrn"@)),
                    )
                    .entry("partUploadResponses"@, JsonView::Array(self.responses)),
            ),
        }
    }

    /// The metadata of the finished upload.
    pub open spec fn result(self) -> JsonView {
        self.value
            .with("media_upload_type"@, JsonView::Text(self.upload_type))
            .with("content_type"@, JsonView::Text(self.content_type))
            .with("multipartCompleted"@, JsonView::Bool(true))
    }
}

impl MultipartUpload {
    /// Whether a part is still to be sent.
    pub fn due(&self) -> (due: bool)
        requires
            self@.wf(),
        ensures
            due == self@.due(),
    {
        match self.value.items_at("partUploadRequests") {
            Some(parts) => self.responses.len() < parts.len(),
            None => false,
        }
    }

    fn part(&self) -> (part: &Json)
        requires
            self@.wf(),
            self@.due(),
        ensures
            part@ == self@.part(),
    {
        match self.value.items_at("partUploadRequests") {
            Some(parts) => &parts[self.responses.len()],
            None => &self.value,
        }
    }

    /// Whether the bytes of the next part lie within the file, as far as the
    /// part says where they lie.
    pub fn part_fits(&self) -> (fits: bool)
        requires
            self@.wf(),
            self@.due(),
        ensures
            fits == self@.part_fits(),
    {
        let part = self.part();
        let has_url = match either(part, "uploadUrl", "partUploadUrl") {
            Some(url) => url.as_str().is_some(),
            None => false,
        };
        if !has_url {
            return true;
        }
        match read_part_range(part, self.bytes.len()) {
            Ok((first, last)) => last < self.bytes.len() && first <= last + 1,
            Err(_) => true,
        }
    }

    /// The request that sends the next part. Where the part has no address, the
    /// error shows the part.
    pub fn part_request(&self) -> (request: Result<HttpRequest, Error>)
        requires
            self@.wf(),
            self@.due(),
            self@.part_fits(),
        ensures
            outcome(request) == self@.part_request(),
    {
        let part = self.part();
        let url = match either(part, "uploadUrl", "partUploadUrl") {
            Some(url) => url.as_str(),
            None => None,
        };
        let url = match url {
            Some(url) => url,
            None => {
                let mut message = "part ".to_owned();
                push_decimal(&mut message, self.responses.len() as u64);
                message.append(" missing uploadUrl/partUploadUrl: ");
                return Err(Error::api_about(200, message.as_str(), part));
            },
        };
        let (first, last) = match read_part_range(part, self.bytes.len()) {
            Ok(range) => range,
            Err(error) => {
                return Err(error);
            },
        };
        let bytes = slice_to_vec(slice_subrange(self.bytes.as_slice(), first, last + 1));
        Ok(
            HttpRequest {
                method: Method::Put,
                url: url.to_owned(),
                headers: upload_header_list(either(part, "headers", "partUploadHeaders")),
                body: Body::Bytes(bytes),
            },
        )
    }

    /// Takes the answer to the part just sent. Any status but 200 is an error.
    pub fn part_reply(&mut self, status: u16, headers: &Vec<ReplyHeader>, body: &str) -> (result:
        Result<(), Error>)
        requires
            old(self)@.wf(),
            old(self)@.due(),
        ensures
            final(self)@.wf(),
            status == 200 ==> {
                &&& result is Ok
                &&& final(self)@ == old(self)@.answered(
                    part_response(status, reply_header_models(headers@), body@),
                )
            },
            status != 200 ==> {
                &&& final(self)@ == old(self)@
                &&& outcome(result) == Err::<(), _>(
                    ErrorView::api(
                        status,
                        "CDN part "@ + decimal(old(self)@.responses.len())
                            + " upload failed (status "@ + decimal(status as nat) + "): "@ + body@,
                    ),
                )
            },
    {
        if status != 200 {
            let mut message = "CDN part ".to_owned();
            push_decimal(&mut message, self.responses.len() as u64);
            message.append(" upload failed (status ");
            push_decimal(&mut message, status as u64);
            message.append("): ");
            message.append(body);
            return Err(Error::api(status, message));
        }
        let ghost before = self@.responses;
        let response = ObjectBuilder::new()
            .field("httpStatusCode", Json::Unsigned(status as u64))
            .field("headers", collect_headers(headers))
            .field("body", Json::text(body))
            .build();
        self.responses.push(response);
        proof {
            assert(self@.responses == before.push(response@));
            lemma_part_response_status(status, reply_header_models(headers@), body@);
        }
        Ok(())
    }

    /// The request that tells the service that all parts are sent.
    pub fn completion_request(&self) -> (request: ApiPost)
        requires
            self@.wf(),
            !self@.due(),
        ensures
            request@ == self@.completion_request(),
    {
        let inner = ObjectBuilder::new()
            .field("uploadMetadataType", Json::text("MULTIPART"))
            .field(
                "multipartMetadata",
                Json::text(text_or_blank(&self.value, "multipartMetadata")),
            )
            .field(
                "mediaArtifactUrn",
                Json::text(text_or_blank(&self.value, "mediaArtifactUrn")),
            )
            .field("partUploadResponses", Json::array(copy_all(&self.responses)))
            .build();
        ApiPost {
            path: "voyagerMediaUploadMetadata?action=completeMultipartUpload",
            body: ObjectBuilder::new().field("completeUploadRequest", inner).build(),
        }
    }

    /// The metadata of the finished upload.
    pub fn completed(self) -> (result: Json)
        requires
            self@.wf(),
            !self@.due(),
        ensures
            result@ == self@.result(),
    {
        self.value
            .with("media_upload_type", Json::text(self.upload_type))
            .with("content_type", Json::text(self.content_type))
            .with("multipartCompleted", Json::Bool(true))
    }
}

/// How long to pause between two requests for the state of an upload.
pub const POLL_INTERVAL_SECS: u64 = 2;

/// What a wait needs next.
#[derive(Debug, PartialEq, Eq)]
pub enum WaitStep {
    /// The path to ask for the state of the upload.
    Get(String),
    /// The report of the wait, which is over.
    Report(Json),
}

/// The model of a [`WaitStep`].
pub ghost enum WaitStepView {
    Get(Seq<char>),
    Report(JsonView),
}

impl View for WaitStep {
    type V = WaitStepView;

    open spec fn view(&self) -> WaitStepView {
        match self {
            WaitStep::Get(path) => WaitStepView::Get(path@),
            WaitStep::Report(report) => WaitStepView::Report(report@),
        }
    }
}

/// The wait until the service has processed an upload.
#[derive(Debug, PartialEq, Eq)]
pub struct MediaWait {
    path: String,
    status_type: &'static str,
    last: Json,
}

/// The model of a [`MediaWait`].
pub ghost struct MediaWaitView {
    /// The path that reports the state of the upload.
    pub path: Seq<char>,
    pub status_type: Seq<char>,
    /// The state that the service last reported; null before the first report.
    pub last: JsonView,
}

impl View for MediaWait {
    type V = MediaWaitView;

    closed spec fn view(&self) -> MediaWaitView {
        MediaWaitView { path: self.path@, status_type: self.status_type@, last: self.last@ }
    }
}

/// The URN and the upload type of an upload.
pub open spec fn upload_identity(media: JsonView) -> Result<(Seq<char>, Seq<char>), ErrorView> {
    match (media.text_at("urn"@), media.text_at("media_upload_type"@)) {
        (None, _) => Err(ErrorView::InvalidInput("media metadata missing urn"@)),
        (_, None) => Err(
            ErrorView::InvalidInput("media metadata missing media_upload_type"@),
        ),
        (Some(urn), Some(upload_type)) => Ok((urn, upload_type)),
    }
}

/// The wait at its start.
pub open spec fn media_wait(encoded_urn: Seq<char>, upload_type: Seq<char>) -> MediaWaitView {
    MediaWaitView {
        path: "voyagerVideoDashMediaAssetStatus/"@ + encoded_urn + "?mediaStatusType="@
            + status_type_of(upload_type),
        status_type: status_type_of(upload_type),
        last: JsonView::Null,
    }
}

/// Whether a reported state settles the wait: `Some(true)` where the upload is
/// ready, `Some(false)` where processing failed, `None` while it goes on.
pub open spec fn verdict(state: JsonView) -> Option<bool> {
    let processing = state.text_at("processingStatus"@);
    if processing == Some("READY"@) || state.field("documentProcessingResult"@) is Some {
        Some(true)
    } else if processing == Some("FAILED"@) || processing == Some("PROCESSING_FAILED"@) {
        Some(false)
    } else {
        None
    }
}

impl MediaWaitView {
    /// The report of a settled wait.
    pub open spec fn settled(self, ok: bool, state: JsonView) -> JsonView {
        object()
            .entry("ok"@, JsonView::Bool(ok))
            .entry("mediaStatusType"@, JsonView::Text(self.status_type))
            .entry("last"@, state)
    }

    /// The report of a wait that took too long.
    pub open spec fn expired(self, timeout_secs: u64) -> JsonView {
        object()
            .entry("ok"@, JsonView::Bool(false))
            .entry("mediaStatusType"@, JsonView::Text(self.status_type))
            .entry("timeout_secs"@, JsonView::Unsigned(timeout_secs))
            .entry("last"@, self.last)
    }

    /// What the wait needs next: another request, unless the time is up.
    pub open spec fn next(self, time_is_up: bool, timeout_secs: u64) -> WaitStepView {
        if time_is_up {
            WaitStepView::Report(self.expired(timeout_secs))
        } else {
            WaitStepView::Get(self.path)
        }
    }

    /// The wait after one more request, which may have failed.
    pub open spec fn observed(self, state: Option<JsonView>) -> MediaWaitView {
        match state {
            Some(state) => MediaWaitView { last: state, ..self },
            None => self,
        }
    }

    /// The report that one more request leads to, if it settles the wait.
    pub open spec fn report(self, state: Option<JsonView>) -> Option<JsonView> {
        match state {
            Some(state) => match verdict(state) {
                Some(ok) => Some(self.settled(ok, state)),
                None => None,
            },
            None => None,
        }
    }
}

/// Whether a reported state settles the wait.
fn judge(state: &Json) -> (settled: Option<bool>)
    ensures
        settled == verdict(state@),
{
    let processing = state.text_at("processingStatus");
    if let Some(status) = processing {
        if same_text(status, "READY") {
            return Some(true);
        }
    }
    if state.get("documentProcessingResult").is_some() {
        return Some(true);
    }
    if let Some(status) = processing {
        if same_text(status, "FAILED") || same_text(status, "PROCESSING_FAILED") {
            return Some(false);
        }
    }
    None
}

impl LinkedInClient {
    /// Starts the wait until an upload is processed. `encode` makes a string
    /// fit to stand in a path.
    pub fn wait_media_ready<F: Fn(&str) -> String>(&self, encode: F, media: &Json) -> (wait: Result<
        MediaWait,
        Error,
    >)
        requires
            forall|s: &str| call_requires(encode, (s,)),
        ensures
            match upload_identity(media@) {
                Ok((urn, upload_type)) => exists|s: &str, encoded: String|
                    {
                        &&& s@ == urn
                        &&& #[trigger] call_ensures(encode, (s,), encoded)
                        &&& outcome(wait) == Ok::<_, ErrorView>(media_wait(encoded@, upload_type))
                    },
                Err(error) => outcome(wait) == Err::<MediaWaitView, _>(error),
            },
    {
        let urn = match media.text_at("urn") {
            Some(urn) => urn,
            None => {
                return Err(Error::invalid("media metadata missing urn".to_owned()));
            },
        };
        let upload_type = match media.text_at("media_upload_type") {
            Some(upload_type) => upload_type,
            None => {
                return Err(Error::invalid("media metadata missing media_upload_type".to_owned()));
            },
        };
        let encoded = encode(urn);
        Ok(MediaWait::new(encoded.as_str(), upload_type))
    }
}

impl MediaWait {
    /// The wait at its start, for an upload whose URN is fit to stand in a
    /// path.
    pub fn new(encoded_urn: &str, upload_type: &str) -> (wait: MediaWait)
        ensures
            wait@ == media_wait(encoded_urn@, upload_type@),
    {
        let status_type = media_status_type(upload_type);
        let path = "voyagerVideoDashMediaAssetStatus/".to_owned()
            .concat(encoded_urn)
            .concat("?mediaStatusType=")
            .concat(status_type);
        MediaWait { path, status_type, last: Json::Null }
    }

    /// What the wait needs next: another request, unless the time is up.
    pub fn next(&self, time_is_up: bool, timeout_secs: u64) -> (step: WaitStep)
        ensures
            step@ == self@.next(time_is_up, timeout_secs),
    {
        if time_is_up {
            WaitStep::Report(self.expired(timeout_secs))
        } else {
            WaitStep::Get(self.path.clone())
        }
    }

    /// Takes the state that one more request reported, or `None` where the
    /// request failed. Returns the report of the wait where that settles it;
    /// else the caller pauses and asks what is next.
    pub fn observe(&mut self, state: Option<&Json>) -> (report: Option<Json>)
        ensures
            final(self)@ == old(self)@.observed(model_if_lent(state)),
            model_if_any(report) == old(self)@.report(model_if_lent(state)),
    {
        let state = match state {
            Some(state) => state,
            None => {
                return None;
            },
        };
        self.last = state.copy();
        match judge(state) {
            Some(ok) => Some(
                ObjectBuilder::new()
                    .field("ok", Json::Bool(ok))
                    .field("mediaStatusType", Json::text(self.status_type))
                    .field("last", state.copy())
                    .build(),
            ),
            None => None,
        }
    }

    /// The report of a wait that took too long.
    fn expired(&self, timeout_secs: u64) -> (report: Json)
        ensures
            report@ == self@.expired(timeout_secs),
    {
        ObjectBuilder::new()
            .field("ok", Json::Bool(false))
            .field("mediaStatusType", Json::text(self.status_type))
            .field("timeout_secs", Json::Unsigned(timeout_secs))
            .field("last", self.last.copy())
            .build()
    }
}

}
