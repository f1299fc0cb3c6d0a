//! Routing by method name: `namespace.operation` picks a controller and one
//! of its operations, which runs on the decoded parameters.

use vstd::prelude::*;
use vstd::string::*;

use crate::clock::now_ts;
use crate::controller::{comment, mandela, topic, user, ApiError};
use crate::json_rpc::{ErrorObject, Params, Reply, Request, Response};
use crate::model::Store;
use crate::text::str_eq;

verus! {

/// The registered namespaces.
#[derive(PartialEq, Eq, Structural, Clone, Copy, Debug)]
pub enum Controller {
    Topic,
    User,
    Comment,
    Mandela,
}

/// The operations of all namespaces.
#[derive(PartialEq, Eq, Structural, Clone, Copy, Debug)]
pub enum Operation {
    TopicCreate,
    TopicGetOne,
    TopicGetAll,
    TopicDelete,
    CommentCreate,
    CommentGetAll,
    CommentUpdate,
    UserCreate,
    UserAuth,
    UserGetOne,
    UserUpdate,
    UserChangePassword,
    EntryCreate,
    EntryUpdate,
    EntryGetOne,
    EntryGetAll,
    EntryDelete,
    EntryMark,
    EntryVote,
}

pub open spec fn spec_factory(name: Seq<char>) -> Option<Controller> {
    if name == "topic"@ {
        Some(Controller::Topic)
    } else if name == "user"@ {
        Some(Controller::User)
    } else if name == "comment"@ {
        Some(Controller::Comment)
    } else if name == "mandela"@ || name == "entry"@ {
        Some(Controller::Mandela)
    } else {
        None
    }
}

/// The controller registered under a namespace; entries answer to both
/// `mandela` and `entry`.
pub fn factory(name: &str) -> (r: Option<Controller>)
    ensures
        r == spec_factory(name@),
{
    if str_eq(name, "topic") {
        Some(Controller::Topic)
    } else if str_eq(name, "user") {
        Some(Controller::User)
    } else if str_eq(name, "comment") {
        Some(Controller::Comment)
    } else if str_eq(name, "mandela") || str_eq(name, "entry") {
        Some(Controller::Mandela)
    } else {
        None
    }
}

pub open spec fn spec_operation(c: Controller, op: Seq<char>) -> Option<Operation> {
    match c {
        Controller::Topic => if op == "create"@ {
            Some(Operation::TopicCreate)
        } else if op == "getOne"@ {
            Some(Operation::TopicGetOne)
        } else if op == "getAll"@ {
            Some(Operation::TopicGetAll)
        } else if op == "delete"@ {
            Some(Operation::TopicDelete)
        } else {
            None
        },
        Controller::Comment => if op == "create"@ {
            Some(Operation::CommentCreate)
        } else if op == "getAll"@ {
            Some(Operation::CommentGetAll)
        } else if op == "update"@ {
            Some(Operation::CommentUpdate)
        } else {
            None
        },
        Controller::User => if op == "create"@ {
            Some(Operation::UserCreate)
        } else if op == "auth"@ {
            Some(Operation::UserAuth)
        } else if op == "getOne"@ {
            Some(Operation::UserGetOne)
        } else if op == "update"@ {
            Some(Operation::UserUpdate)
        } else if op == "changePassword"@ {
            Some(Operation::UserChangePassword)
        } else {
            None
        },
        Controller::Mandela => if op == "create"@ {
            Some(Operation::EntryCreate)
        } else if op == "update"@ {
            Some(Operation::EntryUpdate)
        } else if op == "getOne"@ {
            Some(Operation::EntryGetOne)
        } else if op == "getAll"@ {
            Some(Operation::EntryGetAll)
        } else if op == "delete"@ {
            Some(Operation::EntryDelete)
        } else if op == "mark"@ {
            Some(Operation::EntryMark)
        } else if op == "vote"@ {
            Some(Operation::EntryVote)
        } else {
            None
        },
    }
}

/// The operation of controller `c` with the given name.
pub fn operation(c: Controller, op: &str) -> (r: Option<Operation>)
    ensures
        r == spec_operation(c, op@),
{
    match c {
        Controller::Topic => if str_eq(op, "create") {
            Some(Operation::TopicCreate)
        } else if str_eq(op, "getOne") {
            Some(Operation::TopicGetOne)
        } else if str_eq(op, "getAll") {
            Some(Operation::TopicGetAll)
        } else if str_eq(op, "delete") {
            Some(Operation::TopicDelete)
        } else {
            None
        },
        Controller::Comment => if str_eq(op, "create") {
            Some(Operation::CommentCreate)
        } else if str_eq(op, "getAll") {
            Some(Operation::CommentGetAll)
        } else if str_eq(op, "update") {
            Some(Operation::CommentUpdate)
        } else {
            None
        },
        Controller::User => if str_eq(op, "create") {
            Some(Operation::UserCreate)
        } else if str_eq(op, "auth") {
            Some(Operation::UserAuth)
        } else if str_eq(op, "getOne") {
            Some(Operation::UserGetOne)
        } else if str_eq(op, "update") {
            Some(Operation::UserUpdate)
        } else if str_eq(op, "changePassword") {
            Some(Operation::UserChangePassword)
        } else {
            None
        },
        Controller::Mandela => if str_eq(op, "create") {
            Some(Operation::EntryCreate)
        } else if str_eq(op, "update") {
            Some(Operation::EntryUpdate)
        } else if str_eq(op, "getOne") {
            Some(Operation::EntryGetOne)
        } else if str_eq(op, "getAll") {
            Some(Operation::EntryGetAll)
        } else if str_eq(op, "delete") {
            Some(Operation::EntryDelete)
        } else if str_eq(op, "mark") {
            Some(Operation::EntryMark)
        } else if str_eq(op, "vote") {
            Some(Operation::EntryVote)
        } else {
            None
        },
    }
}

/// Whether a transport request may carry an envelope: only a `POST` to
/// `/api`; anything else is refused before its body is read.
pub fn accepts(method: &str, path: &str) -> (r: bool)
    ensures
        r == (method@ == "POST"@ && path@ == "/api"@),
{
    str_eq(method, "POST") && str_eq(path, "/api")
}

/// The position of the first `.` in `m`, if any.
pub open spec fn first_dot(m: Seq<char>) -> Option<int>
    decreases m.len(),
{
    if m.len() == 0 {
        None
    } else {
        match first_dot(m.drop_last()) {
            Some(i) => Some(i),
            None => if m.last() == '.' { Some(m.len() - 1) } else { None },
        }
    }
}

/// A method name split at its first `.` into namespace and operation.
pub open spec fn spec_split_method(m: Seq<char>) -> Option<(Seq<char>, Seq<char>)> {
    match first_dot(m) {
        Some(i) => Some((m.take(i), m.skip(i + 1))),
        None => None,
    }
}

/// Splits a method name at its first `.` into namespace and operation.
pub fn split_method(m: &str) -> (r: Option<(&str, &str)>)
    ensures
        match r {
            Some((ns, op)) => spec_split_method(m@) == Some((ns@, op@)),
            None => spec_split_method(m@).is_none(),
        },
{
    let n = m.unicode_len();
    let mut i: usize = 0;
    while i < n
        invariant
            n == m@.len(),
            i <= n,
            first_dot(m@.take(i as int)).is_none(),
        decreases n - i,
    {
        assert(m@.take(i + 1).drop_last() =~= m@.take(i as int));
        if m.get_char(i) == '.' {
            let ns = m.substring_char(0, i);
            let op = m.substring_char(i + 1, n);
            proof { lemma_first_dot_prefix(m@, i as int + 1); }
            assert(ns@ =~= m@.take(i as int));
            assert(op@ =~= m@.skip(i + 1));
            return Some((ns, op));
        }
        i = i + 1;
    }
    assert(m@.take(n as int) =~= m@);
    None
}

/// A dot found in a prefix is the first dot of the whole.
proof fn lemma_first_dot_prefix(m: Seq<char>, k: int)
    requires
        0 <= k <= m.len(),
        first_dot(m.take(k)).is_some(),
    ensures
        first_dot(m) == first_dot(m.take(k)),
    decreases m.len() - k,
{
    if k < m.len() {
        assert(m.take(k + 1).drop_last() =~= m.take(k));
        lemma_first_dot_prefix(m, k + 1);
    } else {
        assert(m.take(k) =~= m);
    }
}

pub open spec fn spec_resolve(m: Seq<char>) -> Result<Operation, ApiError> {
    match spec_split_method(m) {
        None => Err(ApiError::UnknownMethod),
        Some((ns, op)) => match spec_factory(ns) {
            None => Err(ApiError::UnknownMethod),
            Some(c) => match spec_operation(c, op) {
                None => Err(ApiError::UnknownOperation),
                Some(o) => Ok(o),
            },
        },
    }
}

/// The operation that a method name selects: `UnknownMethod` when it has
/// no `.` or names no registered namespace, `UnknownOperation` when the
/// namespace has no such operation.
pub fn resolve(method: &str) -> (r: Result<Operation, ApiError>)
    ensures
        r == spec_resolve(method@),
{
    let (ns, op) = match split_method(method) {
        Some(p) => p,
        None => return Err(ApiError::UnknownMethod),
    };
    let c = match factory(ns) {
        Some(c) => c,
        None => return Err(ApiError::UnknownMethod),
    };
    match operation(c, op) {
        Some(o) => Ok(o),
        None => Err(ApiError::UnknownOperation),
    }
}

pub open spec fn spec_params_op(p: Params) -> Operation {
    match p {
        Params::TopicCreate(_) => Operation::TopicCreate,
        Params::TopicGetOne(_) => Operation::TopicGetOne,
        Params::TopicGetAll => Operation::TopicGetAll,
        Params::TopicDelete(_) => Operation::TopicDelete,
        Params::CommentCreate(_) => Operation::CommentCreate,
        Params::CommentGetAll(_) => Operation::CommentGetAll,
        Params::CommentUpdate(_) => Operation::CommentUpdate,
        Params::UserCreate(_) => Operation::UserCreate,
        Params::UserAuth(_) => Operation::UserAuth,
        Params::UserGetOne(_) => Operation::UserGetOne,
        Params::UserUpdate(_) => Operation::UserUpdate,
        Params::UserChangePassword(_) => Operation::UserChangePassword,
        Params::EntryCreate(_) => Operation::EntryCreate,
        Params::EntryUpdate(_) => Operation::EntryUpdate,
        Params::EntryGetOne(_) => Operation::EntryGetOne,
        Params::EntryGetAll(_) => Operation::EntryGetAll,
        Params::EntryDelete(_) => Operation::EntryDelete,
        Params::EntryMark(_) => Operation::EntryMark,
        Params::EntryVote(_) => Operation::EntryVote,
    }
}

/// The operation that parameters of this shape belong to.
pub fn params_op(p: &Params) -> (r: Operation)
    ensures
        r == spec_params_op(*p),
{
    match p {
        Params::TopicCreate(_) => Operation::TopicCreate,
        Params::TopicGetOne(_) => Operation::TopicGetOne,
        Params::TopicGetAll => Operation::TopicGetAll,
        Params::TopicDelete(_) => Operation::TopicDelete,
        Params::CommentCreate(_) => Operation::CommentCreate,
        Params::CommentGetAll(_) => Operation::CommentGetAll,
        Params::CommentUpdate(_) => Operation::CommentUpdate,
        Params::UserCreate(_) => Operation::UserCreate,
        Params::UserAuth(_) => Operation::UserAuth,
        Params::UserGetOne(_) => Operation::UserGetOne,
        Params::UserUpdate(_) => Operation::UserUpdate,
        Params::UserChangePassword(_) => Operation::UserChangePassword,
        Params::EntryCreate(_) => Operation::EntryCreate,
        Params::EntryUpdate(_) => Operation::EntryUpdate,
        Params::EntryGetOne(_) => Operation::EntryGetOne,
        Params::EntryGetAll(_) => Operation::EntryGetAll,
        Params::EntryDelete(_) => Operation::EntryDelete,
        Params::EntryMark(_) => Operation::EntryMark,
        Params::EntryVote(_) => Operation::EntryVote,
    }
}

/// `r` is an outcome that running `params` on `old` at `now` may give, with
/// `new` the store afterwards: exactly what the operation's handler states,
/// with its result in the matching kind of reply. Reads leave the store as
/// it was.
pub open spec fn dispatched(old: &Store, new: &Store, params: Params, now: i64, r: Result<Reply, ApiError>) -> bool {
    match params {
        Params::TopicCreate(p) => match r {
            Ok(Reply::Id(x)) => topic::create_post(old, new, p, now, Ok(x)),
            Err(e) => topic::create_post(old, new, p, now, Err(e)),
            _ => false,
        },
        Params::TopicGetOne(id) => *new == *old && match r {
            Ok(Reply::Topics(t)) => topic::get_one_post(old, id, t),
            _ => false,
        },
        Params::TopicGetAll => *new == *old && match r {
            Ok(Reply::Topics(t)) => topic::get_all_post(old, t),
            _ => false,
        },
        Params::TopicDelete(ids) => match r {
            Ok(Reply::Done) => topic::delete_post(old, new, &ids, Ok(())),
            Err(e) => topic::delete_post(old, new, &ids, Err(e)),
            _ => false,
        },
        Params::CommentCreate(p) => match r {
            Ok(Reply::Done) => comment::create_post(old, new, p, now, Ok(())),
            Err(e) => comment::create_post(old, new, p, now, Err(e)),
            _ => false,
        },
        Params::CommentGetAll(p) => *new == *old && match r {
            Ok(Reply::Comments(x)) => comment::get_all_post(old, &p, Ok(x)),
            Err(e) => comment::get_all_post(old, &p, Err(e)),
            _ => false,
        },
        Params::CommentUpdate(p) => match r {
            Ok(Reply::Done) => comment::update_post(old, new, &p, Ok(())),
            Err(e) => comment::update_post(old, new, &p, Err(e)),
            _ => false,
        },
        Params::UserCreate(p) => match r {
            Ok(Reply::Id(x)) => user::create_post(old, new, p, now, Ok(x)),
            Err(e) => user::create_post(old, new, p, now, Err(e)),
            _ => false,
        },
        Params::UserAuth(p) => *new == *old && match r {
            Ok(Reply::Auth(x)) => user::auth_post(old, &p, Ok(x)),
            Err(e) => user::auth_post(old, &p, Err(e)),
            _ => false,
        },
        Params::UserGetOne(t) => *new == *old && match r {
            Ok(Reply::UserInfo(x)) => user::get_one_post(old, t@, Ok(x)),
            Err(e) => user::get_one_post(old, t@, Err(e)),
            _ => false,
        },
        Params::UserUpdate(p) => match r {
            Ok(Reply::Done) => user::update_post(old, new, p, now, Ok(())),
            Err(e) => user::update_post(old, new, p, now, Err(e)),
            _ => false,
        },
        Params::UserChangePassword(p) => match r {
            Ok(Reply::Token(x)) => user::change_password_post(old, new, &p, Ok(x)),
            Err(e) => user::change_password_post(old, new, &p, Err(e)),
            _ => false,
        },
        Params::EntryCreate(p) => match r {
            Ok(Reply::Id(x)) => mandela::create_post(old, new, p, now, Ok(x)),
            Err(e) => mandela::create_post(old, new, p, now, Err(e)),
            _ => false,
        },
        Params::EntryUpdate(p) => match r {
            Ok(Reply::Done) => mandela::update_post(old, new, &p, now, Ok(())),
            Err(e) => mandela::update_post(old, new, &p, now, Err(e)),
            _ => false,
        },
        Params::EntryGetOne(p) => *new == *old && match r {
            Ok(Reply::EntryDetail(x)) => mandela::get_one_post(old, &p, Ok(x)),
            Err(e) => mandela::get_one_post(old, &p, Err(e)),
            _ => false,
        },
        Params::EntryGetAll(p) => *new == *old && match r {
            Ok(Reply::EntryList(x)) => mandela::get_all_post(old, &p, Ok(x)),
            Err(e) => mandela::get_all_post(old, &p, Err(e)),
            _ => false,
        },
        Params::EntryDelete(ids) => match r {
            Ok(Reply::Done) => mandela::delete_post(old, new, &ids, Ok(())),
            Err(e) => mandela::delete_post(old, new, &ids, Err(e)),
            _ => false,
        },
        Params::EntryMark(p) => match r {
            Ok(Reply::Done) => mandela::mark_post(old, new, &p, now, Ok(())),
            Err(e) => mandela::mark_post(old, new, &p, now, Err(e)),
            _ => false,
        },
        Params::EntryVote(p) => match r {
            Ok(Reply::Tally(x)) => mandela::vote_post(old, new, &p, Ok(x)),
            Err(e) => mandela::vote_post(old, new, &p, Err(e)),
            _ => false,
        },
    }
}

/// `resp` carries outcome `o`: its `Ok` value as the result, or the wire
/// form of its error, and never both.
pub open spec fn carries(resp: Response, o: Result<Reply, ApiError>) -> bool {
    match o {
        Ok(x) => resp.result == Some(x) && resp.error.is_none(),
        Err(e) => resp.result.is_none() && (resp.error matches Some(eo) && eo.code == e.spec_code()
            && eo.message@ == e.spec_message()),
    }
}

/// `resp` carries an outcome that running `params` on `old` at `now` gives,
/// with `new` the store afterwards.
pub open spec fn answered(old: &Store, new: &Store, params: Params, now: i64, resp: Response) -> bool {
    exists|o: Result<Reply, ApiError>| #[trigger] dispatched(old, new, params, now, o) && carries(resp, o)
}

/// Runs the operation that the parameters belong to, at time `now`.
pub fn dispatch(store: &mut Store, params: Params, now: i64) -> (r: Result<Reply, ApiError>)
    requires
        old(store).wf(),
    ensures
        final(store).wf(),
        dispatched(old(store), final(store), params, now, r),
{
    match params {
        Params::TopicCreate(p) => match topic::create(store, p, now) {
            Ok(id) => Ok(Reply::Id(id)),
            Err(e) => Err(e),
        },
        Params::TopicGetOne(id) => Ok(Reply::Topics(topic::get_one(store, id))),
        Params::TopicGetAll => Ok(Reply::Topics(topic::get_all(store))),
        Params::TopicDelete(ids) => match topic::delete(store, &ids) {
            Ok(()) => Ok(Reply::Done),
            Err(e) => Err(e),
        },
        Params::CommentCreate(p) => match comment::create(store, p, now) {
            Ok(()) => Ok(Reply::Done),
            Err(e) => Err(e),
        },
        Params::CommentGetAll(p) => match comment::get_all(store, &p) {
            Ok(l) => Ok(Reply::Comments(l)),
            Err(e) => Err(e),
        },
        Params::CommentUpdate(p) => match comment::update(store, &p) {
            Ok(()) => Ok(Reply::Done),
            Err(e) => Err(e),
        },
        Params::UserCreate(p) => match user::create(store, p, now) {
            Ok(id) => Ok(Reply::Id(id)),
            Err(e) => Err(e),
        },
        Params::UserAuth(p) => match user::auth(store, &p) {
            Ok(a) => Ok(Reply::Auth(a)),
            Err(e) => Err(e),
        },
        Params::UserGetOne(token) => match user::get_one(store, token.as_str()) {
            Ok(i) => Ok(Reply::UserInfo(i)),
            Err(e) => Err(e),
        },
        Params::UserUpdate(p) => match user::update(store, p, now) {
            Ok(()) => Ok(Reply::Done),
            Err(e) => Err(e),
        },
        Params::UserChangePassword(p) => match user::change_password(store, &p) {
            Ok(t) => Ok(Reply::Token(t)),
            Err(e) => Err(e),
        },
        Params::EntryCreate(p) => match mandela::create(store, p, now) {
            Ok(id) => Ok(Reply::Id(id)),
            Err(e) => Err(e),
        },
        Params::EntryUpdate(p) => match mandela::update(store, &p, now) {
            Ok(()) => Ok(Reply::Done),
            Err(e) => Err(e),
        },
        Params::EntryGetOne(p) => match mandela::get_one(store, &p) {
            Ok(d) => Ok(Reply::EntryDetail(d)),
            Err(e) => Err(e),
        },
        Params::EntryGetAll(p) => match mandela::get_all(store, &p) {
            Ok(l) => Ok(Reply::EntryList(l)),
            Err(e) => Err(e),
        },
        Params::EntryDelete(ids) => match mandela::delete(store, &ids) {
            Ok(()) => Ok(Reply::Done),
            Err(e) => Err(e),
        },
        Params::EntryMark(p) => match mandela::mark(store, &p, now) {
            Ok(()) => Ok(Reply::Done),
            Err(e) => Err(e),
        },
        Params::EntryVote(p) => match mandela::vote(store, &p) {
            Ok(t) => Ok(Reply::Tally(t)),
            Err(e) => Err(e),
        },
    }
}

/// `resp` is how call `req` on `old` at `now` is answered, with `new` the
/// store afterwards: a method that does not resolve, or parameters of
/// another operation, give their error and change nothing; otherwise the
/// response carries what the operation gives.
pub open spec fn handled(old: &Store, new: &Store, req: Request, now: i64, resp: Response) -> bool {
    &&& (spec_resolve(req.method@) matches Err(e) ==> carries(resp, Err(e)) && *new == *old)
    &&& ((spec_resolve(req.method@) matches Ok(op) && !(req.params matches Some(p) && spec_params_op(p) == op))
        ==> carries(resp, Err(ApiError::BadParams)) && *new == *old)
    &&& ((spec_resolve(req.method@) matches Ok(op) && req.params is Some && spec_params_op(req.params.unwrap())
        == op) ==> answered(old, new, req.params.unwrap(), now, resp))
}

/// Handles one call at time `now`: resolves its method, checks that the
/// parameters fit the operation, runs it, and wraps the outcome in an
/// envelope that echoes the call's id and method.
pub fn exec_at(store: &mut Store, req: Request, now: i64) -> (resp: Response)
    requires
        old(store).wf(),
    ensures
        final(store).wf(),
        resp.id == req.id,
        resp.method == req.method,
        resp.well_formed(),
        handled(old(store), final(store), req, now, resp),
{
    let ghost params = req.params;
    let outcome = match resolve(req.method.as_str()) {
        Err(e) => Err(e),
        Ok(op) => match req.params {
            Some(p) => if params_op(&p) == op {
                let r = dispatch(store, p, now);
                assert(dispatched(old(store), store, params.unwrap(), now, r));
                r
            } else {
                Err(ApiError::BadParams)
            },
            None => Err(ApiError::BadParams),
        },
    };
    match outcome {
        Ok(r) => Response { id: req.id, method: req.method, result: Some(r), error: None },
        Err(e) => {
            let o = ErrorObject::from_api_error(e);
            Response { id: req.id, method: req.method, result: None, error: Some(o) }
        },
    }
}

/// Handles one call at the current time; when the clock cannot be read,
/// answers `ClockUnavailable` and changes nothing.
pub fn exec(store: &mut Store, req: Request) -> (resp: Response)
    requires
        old(store).wf(),
    ensures
        final(store).wf(),
        resp.id == req.id,
        resp.method == req.method,
        resp.well_formed(),
        (carries(resp, Err(ApiError::ClockUnavailable)) && *final(store) == *old(store))
            || exists|t: i64| #[trigger] handled(old(store), final(store), req, t, resp),
{
    match now_ts() {
        Some(now) => exec_at(store, req, now),
        None => {
            let o = ErrorObject::from_api_error(ApiError::ClockUnavailable);
            Response { id: req.id, method: req.method, result: None, error: Some(o) }
        },
    }
}

} // verus!
