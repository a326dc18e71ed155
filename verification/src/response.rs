//! Answers to HTTP requests.
use vstd::prelude::*;

verus! {

/// The status of an answer.
#[derive(Debug, Copy, Clone, PartialEq, Eq, Structural)]
pub enum StatusCode {
    Success,
    BadRequest,
    NotFound,
    MethodNotAllowed,
    InternalServerError,
}

impl StatusCode {
    /// The status as the number that HTTP gives it.
    pub open spec fn number(self) -> u16 {
        match self {
            StatusCode::Success => 200,
            StatusCode::BadRequest => 400,
            StatusCode::NotFound => 404,
            StatusCode::MethodNotAllowed => 405,
            StatusCode::InternalServerError => 500,
        }
    }

    /// The status as the number that HTTP gives it.
    pub fn as_u16(&self) -> (r: u16)
        ensures
            r == self.number(),
    {
        match self {
            StatusCode::Success => 200,
            StatusCode::BadRequest => 400,
            StatusCode::NotFound => 404,
            StatusCode::MethodNotAllowed => 405,
            StatusCode::InternalServerError => 500,
        }
    }
}

/// An answer: its status and its body.
#[derive(Debug)]
pub struct Response {
    pub status: StatusCode,
    pub body: String,
}

/// An answer with its body as characters.
#[verifier::ext_equal]
pub struct ResponseView {
    pub status: StatusCode,
    pub body: Seq<char>,
}

impl View for Response {
    type V = ResponseView;

    open spec fn view(&self) -> ResponseView {
        ResponseView { status: self.status, body: self.body@ }
    }
}

/// Composes an answer.
pub fn generate_response(body: &str, status_code: StatusCode) -> (r: Response)
    ensures
        r@ == (ResponseView { status: status_code, body: body@ }),
{
    Response { status: status_code, body: body.to_owned() }
}

/// Answers of one status have the number that HTTP gives it, and no other answers have it: numbers
/// from 200 mean success, those from 400 an error of the client, those from 500 one of the service.
pub proof fn statuses_have_their_numbers(status: StatusCode)
    ensures
        status.number() == 200 <==> status == StatusCode::Success,
        status.number() == 400 <==> status == StatusCode::BadRequest,
        status.number() == 404 <==> status == StatusCode::NotFound,
        status.number() == 405 <==> status == StatusCode::MethodNotAllowed,
        status.number() == 500 <==> status == StatusCode::InternalServerError,
{
}

} // verus!
