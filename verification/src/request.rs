//! Requests that the caller is to send.

use vstd::prelude::*;

use crate::json::{Json, JsonView};

verus! {

/// A post to a path of the API, with a JSON body.
#[derive(Debug, PartialEq, Eq)]
pub struct ApiPost {
    pub path: &'static str,
    pub body: Json,
}

/// The model of an [`ApiPost`].
pub ghost struct ApiPostView {
    pub path: Seq<char>,
    pub body: JsonView,
}

impl View for ApiPost {
    type V = ApiPostView;

    open spec fn view(&self) -> ApiPostView {
        ApiPostView { path: self.path@, body: self.body@ }
    }
}

/// A GraphQL query. The result stands under `result_key` in the reply.
#[derive(Debug, PartialEq, Eq)]
pub struct GraphqlQuery {
    pub variables: String,
    pub query_id: &'static str,
    pub query_name: &'static str,
    pub result_key: &'static str,
}

/// The model of a [`GraphqlQuery`].
pub ghost struct GraphqlQueryView {
    pub variables: Seq<char>,
    pub query_id: Seq<char>,
    pub query_name: Seq<char>,
    pub result_key: Seq<char>,
}

impl View for GraphqlQuery {
    type V = GraphqlQueryView;

    open spec fn view(&self) -> GraphqlQueryView {
        GraphqlQueryView {
            variables: self.variables@,
            query_id: self.query_id@,
            query_name: self.query_name@,
            result_key: self.result_key@,
        }
    }
}

/// A GraphQL mutation.
#[derive(Debug, PartialEq, Eq)]
pub struct GraphqlMutation {
    pub variables: Json,
    pub query_id: &'static str,
    pub query_name: &'static str,
}

/// The model of a [`GraphqlMutation`].
pub ghost struct GraphqlMutationView {
    pub variables: JsonView,
    pub query_id: Seq<char>,
    pub query_name: Seq<char>,
}

impl View for GraphqlMutation {
    type V = GraphqlMutationView;

    open spec fn view(&self) -> GraphqlMutationView {
        GraphqlMutationView {
            variables: self.variables@,
            query_id: self.query_id@,
            query_name: self.query_name@,
        }
    }
}

/// The method of a request.
#[derive(Debug, Clone, Copy, PartialEq, Eq, Structural)]
pub enum Method {
    Post,
    Put,
    Delete,
}

/// A header of a request.
#[derive(Debug, PartialEq, Eq)]
pub struct Header {
    pub name: String,
    pub value: String,
}

impl Header {
    /// A header with the given name and value.
    pub fn new(name: &str, value: &str) -> (header: Header)
        ensures
            header.name@ == name@,
            header.value@ == value@,
    {
        Header { name: name.to_owned(), value: value.to_owned() }
    }
}

/// The names and values of a list of headers.
pub open spec fn header_models(headers: Seq<Header>) -> Seq<(Seq<char>, Seq<char>)> {
    Seq::new(headers.len(), |i: int| (headers[i].name@, headers[i].value@))
}

/// The body of a request.
#[derive(Debug, PartialEq, Eq)]
pub enum Body {
    Empty,
    Json(Json),
    Bytes(Vec<u8>),
}

/// The model of a [`Body`].
pub ghost enum BodyView {
    Empty,
    Json(JsonView),
    Bytes(Seq<u8>),
}

impl View for Body {
    type V = BodyView;

    open spec fn view(&self) -> BodyView {
        match self {
            Body::Empty => BodyView::Empty,
            Body::Json(json) => BodyView::Json(json@),
            Body::Bytes(bytes) => BodyView::Bytes(bytes@),
        }
    }
}

/// A request to a full URL.
#[derive(Debug, PartialEq, Eq)]
pub struct HttpRequest {
    pub method: Method,
    pub url: String,
    pub headers: Vec<Header>,
    pub body: Body,
}

/// The model of an [`HttpRequest`].
pub ghost struct HttpRequestView {
    pub method: Method,
    pub url: Seq<char>,
    pub headers: Seq<(Seq<char>, Seq<char>)>,
    pub body: BodyView,
}

impl View for HttpRequest {
    type V = HttpRequestView;

    open spec fn view(&self) -> HttpRequestView {
        HttpRequestView {
            method: self.method,
            url: self.url@,
            headers: header_models(self.headers@),
            body: self.body@,
        }
    }
}

/// Whether an HTTP status reports success.
pub open spec fn success(status: u16) -> bool {
    200 <= status < 300
}

/// Whether an HTTP status reports success.
pub fn is_success(status: u16) -> (yes: bool)
    ensures
        yes == success(status),
{
    200 <= status && status < 300
}

}
