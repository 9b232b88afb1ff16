//! What the server answers.

use vstd::prelude::*;

verus! {

/// The status of a response.
#[derive(Clone, Copy, Debug, PartialEq, Eq, Structural)]
pub enum Status {
    /// 200: the body is a document.
    Success,
    /// 404: there is nothing to send.
    NotFound,
}

impl Status {
    /// The status code on the wire.
    pub open spec fn code_of(self) -> u16 {
        match self {
            Status::Success => 200,
            Status::NotFound => 404,
        }
    }

    /// The status code on the wire.
    pub fn code(&self) -> (code: u16)
        ensures
            code == self.code_of(),
    {
        match self {
            Status::Success => 200,
            Status::NotFound => 404,
        }
    }
}

/// A response: its status, the content type of its body if it has one, and
/// the body.
#[derive(Debug, PartialEq, Eq)]
pub struct Response {
    pub status: Status,
    pub content_type: Option<String>,
    pub body: Vec<u8>,
}

/// A response as a mathematical value.
pub struct ResponseView {
    pub status: Status,
    pub content_type: Option<Seq<char>>,
    pub body: Seq<u8>,
}

impl View for Response {
    type V = ResponseView;

    open spec fn view(&self) -> ResponseView {
        ResponseView {
            status: self.status,
            content_type: match self.content_type {
                Some(content_type) => Some(content_type@),
                None => None,
            },
            body: self.body@,
        }
    }
}

/// The response that sends a document.
pub open spec fn success(content_type: Seq<char>, body: Seq<u8>) -> ResponseView {
    ResponseView { status: Status::Success, content_type: Some(content_type), body }
}

/// The response that sends nothing.
pub open spec fn not_found() -> ResponseView {
    ResponseView { status: Status::NotFound, content_type: None, body: Seq::empty() }
}

impl Response {
    /// The response that sends a document with its content type.
    pub fn success(content_type: String, body: Vec<u8>) -> (response: Response)
        ensures
            response@ == success(content_type@, body@),
    {
        Response { status: Status::Success, content_type: Some(content_type), body }
    }

    /// The response that sends nothing.
    pub fn not_found() -> (response: Response)
        ensures
            response@ == not_found(),
    {
        Response { status: Status::NotFound, content_type: None, body: Vec::new() }
    }
}

} // verus!
