//! The request and response envelopes.

use vstd::prelude::*;

use crate::controller::comment::{CommentList, NewComment};
use crate::controller::mandela::{EntryDetail, EntryList, VoteCount};
use crate::controller::topic::NewTopic;
use crate::controller::user::{AuthReply, UserInfo};
use crate::controller::{comment, mandela, user, ApiError};
use crate::model::Topic;

verus! {

/// The parameters of one operation, already decoded into its own shape.
pub enum Params {
    TopicCreate(NewTopic),
    TopicGetOne(i32),
    TopicGetAll,
    TopicDelete(Vec<i32>),
    CommentCreate(NewComment),
    CommentGetAll(comment::GetAllReq),
    CommentUpdate(comment::UpdateReq),
    UserCreate(user::CreateReq),
    UserAuth(user::AuthReq),
    UserGetOne(String),
    UserUpdate(user::UpdateReq),
    UserChangePassword(user::ChangePasswordReq),
    EntryCreate(mandela::CreateReq),
    EntryUpdate(mandela::UpdateReq),
    EntryGetOne(mandela::GetOneReq),
    EntryGetAll(mandela::GetAllReq),
    EntryDelete(Vec<i32>),
    EntryMark(mandela::MarkReq),
    EntryVote(mandela::VoteReq),
}

/// An inbound call: its correlation id, its `namespace.operation` method,
/// and its parameters, absent where they could not be decoded.
pub struct Request {
    pub id: String,
    pub method: String,
    pub params: Option<Params>,
}

/// What a successful call returns.
pub enum Reply {
    /// The call succeeded and returns nothing.
    Done,
    Id(i32),
    Token(String),
    Auth(AuthReply),
    UserInfo(UserInfo),
    Topics(Vec<Topic>),
    Comments(CommentList),
    EntryList(EntryList),
    EntryDetail(EntryDetail),
    Tally(Vec<VoteCount>),
}

/// The wire form of a domain error.
pub struct ErrorObject {
    pub code: i32,
    pub message: String,
}

/// The outbound envelope: it echoes the request's id and method and holds
/// exactly one of `result` and `error`.
pub struct Response {
    pub id: String,
    pub method: String,
    pub result: Option<Reply>,
    pub error: Option<ErrorObject>,
}

impl Response {
    pub open spec fn well_formed(&self) -> bool {
        self.result.is_some() != self.error.is_some()
    }
}

impl ErrorObject {
    /// The wire form of `e`.
    pub fn from_api_error(e: ApiError) -> (r: ErrorObject)
        ensures
            r.code == e.spec_code(),
            r.message@ == e.spec_message(),
    {
        ErrorObject { code: e.code(), message: String::from_str(e.message()) }
    }
}

} // verus!
