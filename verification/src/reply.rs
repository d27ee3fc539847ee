//! What the handlers answer.

use vstd::prelude::*;
use vstd::string::*;

use crate::text::owned_text_of;

verus! {

/// The HTTP status codes that the handlers use.
#[derive(Clone, Copy, Debug, PartialEq, Eq, Structural)]
pub enum Status {
    Success,
    BadRequest,
    Unauthorized,
    Forbidden,
    NotFound,
    Conflict,
    TooManyRequests,
    InternalServerError,
}

impl Status {
    /// The number that stands for the status in HTTP.
    pub open spec fn number(self) -> u16 {
        match self {
            Status::Success => 200,
            Status::BadRequest => 400,
            Status::Unauthorized => 401,
            Status::Forbidden => 403,
            Status::NotFound => 404,
            Status::Conflict => 409,
            Status::TooManyRequests => 429,
            Status::InternalServerError => 500,
        }
    }

    /// The number that stands for the status in HTTP.
    pub fn code(self) -> (res: u16)
        ensures
            res == self.number(),
    {
        match self {
            Status::Success => 200,
            Status::BadRequest => 400,
            Status::Unauthorized => 401,
            Status::Forbidden => 403,
            Status::NotFound => 404,
            Status::Conflict => 409,
            Status::TooManyRequests => 429,
            Status::InternalServerError => 500,
        }
    }
}

/// The JSON object that a reply carries.
#[derive(Debug)]
pub enum ReplyBody {
    /// `{"ok": true}`
    Acknowledged,
    /// `{"error": ..}` with a message for the user.
    Error(String),
}

/// The contents of a [`ReplyBody`].
pub enum ReplyBodyView {
    Acknowledged,
    Error(Seq<char>),
}

impl View for ReplyBody {
    type V = ReplyBodyView;

    open spec fn view(&self) -> ReplyBodyView {
        match self {
            ReplyBody::Acknowledged => ReplyBodyView::Acknowledged,
            ReplyBody::Error(message) => ReplyBodyView::Error(message@),
        }
    }
}

/// A reply with a body. Where a handler answers with a status alone, it returns
/// that status as an error.
#[derive(Debug)]
pub struct Reply {
    pub status: Status,
    /// The value of the header field `Set-Cookie`.
    pub set_cookie: Option<String>,
    pub body: ReplyBody,
}

/// The contents of a [`Reply`].
pub struct ReplyView {
    pub status: Status,
    pub set_cookie: Option<Seq<char>>,
    pub body: ReplyBodyView,
}

impl View for Reply {
    type V = ReplyView;

    open spec fn view(&self) -> ReplyView {
        ReplyView {
            status: self.status,
            set_cookie: owned_text_of(self.set_cookie),
            body: self.body@,
        }
    }
}

/// The reply that says that all went well.
pub open spec fn acknowledgement() -> ReplyView {
    ReplyView {
        status: Status::Success,
        set_cookie: None,
        body: ReplyBodyView::Acknowledged,
    }
}

/// The reply that says that all went well and sets a cookie.
pub open spec fn cookie_reply(cookie: Seq<char>) -> ReplyView {
    ReplyView {
        status: Status::Success,
        set_cookie: Some(cookie),
        body: ReplyBodyView::Acknowledged,
    }
}

/// The reply that refuses with a message.
pub open spec fn refusal(status: Status, message: Seq<char>) -> ReplyView {
    ReplyView { status, set_cookie: None, body: ReplyBodyView::Error(message) }
}

impl Reply {
    /// The reply that says that all went well.
    pub fn acknowledge() -> (res: Reply)
        ensures
            res@ == acknowledgement(),
    {
        Reply { status: Status::Success, set_cookie: None, body: ReplyBody::Acknowledged }
    }

    /// The reply that says that all went well and sets a cookie.
    pub fn with_cookie(cookie: String) -> (res: Reply)
        ensures
            res@ == cookie_reply(cookie@),
    {
        Reply { status: Status::Success, set_cookie: Some(cookie), body: ReplyBody::Acknowledged }
    }

    /// The reply that refuses with a message.
    pub fn refuse(status: Status, message: &str) -> (res: Reply)
        ensures
            res@ == refusal(status, message@),
    {
        Reply { status, set_cookie: None, body: ReplyBody::Error(message.to_string()) }
    }
}

/// The contents of what a handler returns.
pub open spec fn reply_of(res: Result<Reply, Status>) -> Result<ReplyView, Status> {
    match res {
        Ok(reply) => Ok(reply@),
        Err(status) => Err(status),
    }
}

/// Replies say what they are meant to say: an acknowledgement carries no message
/// and no cookie of its own, a refusal its status and message.
pub proof fn replies_say_what_they_mean(cookie: Seq<char>, status: Status, message: Seq<char>)
    ensures
        acknowledgement().status == Status::Success,
        acknowledgement().set_cookie is None,
        acknowledgement().body == ReplyBodyView::Acknowledged,
        cookie_reply(cookie).status == Status::Success,
        cookie_reply(cookie).set_cookie == Some(cookie),
        cookie_reply(cookie).body == ReplyBodyView::Acknowledged,
        refusal(status, message).status == status,
        refusal(status, message).set_cookie is None,
        refusal(status, message).body == ReplyBodyView::Error(message),
{
}

/// A reply is seen with its status, its cookie and its body, and a bare status as
/// that status.
pub proof fn replies_are_seen_as_they_are(reply: Reply, status: Status)
    ensures
        reply@.status == reply.status,
        reply.set_cookie matches Some(cookie) ==> reply@.set_cookie == Some(cookie@),
        reply.set_cookie is None ==> reply@.set_cookie is None,
        reply.body matches ReplyBody::Error(message) ==> reply@.body == ReplyBodyView::Error(
            message@,
        ),
        reply.body is Acknowledged ==> reply@.body == ReplyBodyView::Acknowledged,
        reply_of(Ok(reply)) == Ok::<ReplyView, Status>(reply@),
        reply_of(Err(status)) == Err::<ReplyView, Status>(status),
{
}

/// The statuses stand for the numbers that HTTP gives them: success is in the two
/// hundreds, what the client did wrong in the four hundreds, what the server did
/// in the five hundreds; and no two share one.
pub proof fn statuses_have_their_numbers(a: Status, b: Status)
    ensures
        a.number() == b.number() ==> a == b,
        a == Status::Success <==> 200 <= a.number() < 300,
        a == Status::InternalServerError <==> a.number() == 500,
        a != Status::Success && a != Status::InternalServerError <==> 400 <= a.number() < 500,
        Status::Success.number() == 200,
        Status::BadRequest.number() == 400,
        Status::Unauthorized.number() == 401,
        Status::Forbidden.number() == 403,
        Status::NotFound.number() == 404,
        Status::Conflict.number() == 409,
        Status::TooManyRequests.number() == 429,
{
}

} // verus!
