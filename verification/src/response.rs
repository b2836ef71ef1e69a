//! What the service answers, as plain values: a status, at most one content
//! type, and a body.
use vstd::prelude::*;

verus! {

/// The three statuses that the service answers with.
#[derive(Clone, Copy, Debug, PartialEq, Eq, Structural)]
pub enum StatusCode {
    /// 200
    Okay,
    /// 400
    BadRequest,
    /// 500
    InternalServerError,
}

impl StatusCode {
    /// The status as HTTP numbers it.
    pub open spec fn code(self) -> int {
        match self {
            StatusCode::Okay => 200,
            StatusCode::BadRequest => 400,
            StatusCode::InternalServerError => 500,
        }
    }

    /// The status as HTTP numbers it.
    pub fn as_u16(self) -> (r: u16)
        ensures
            r == self.code(),
    {
        match self {
            StatusCode::Okay => 200,
            StatusCode::BadRequest => 400,
            StatusCode::InternalServerError => 500,
        }
    }
}

/// An answer of the service.
#[derive(Clone, Debug, PartialEq, Eq)]
pub struct Response {
    pub status: StatusCode,
    /// The value of the `content-type` header, where the answer has one.
    pub content_type: Option<String>,
    pub body: Vec<u8>,
}

/// A [`Response`] as contracts see it.
pub ghost struct ResponseModel {
    pub status: StatusCode,
    pub content_type: Option<Seq<char>>,
    pub body: Seq<u8>,
}

impl View for Response {
    type V = ResponseModel;

    open spec fn view(&self) -> ResponseModel {
        ResponseModel {
            status: self.status,
            content_type: match self.content_type {
                Some(t) => Some(t@),
                None => None,
            },
            body: self.body@,
        }
    }
}

/// The answer that is a status and nothing else: no content type, no body.
pub open spec fn bare(status: StatusCode) -> ResponseModel {
    ResponseModel { status, content_type: None, body: Seq::empty() }
}

impl Response {
    /// The answer that is a status and nothing else.
    pub fn from_status(status: StatusCode) -> (r: Response)
        ensures
            r@ == bare(status),
    {
        Response { status, content_type: None, body: Vec::new() }
    }
}

} // verus!
