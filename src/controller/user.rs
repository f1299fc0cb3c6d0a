//! Users: creation, authentication by password, lookup by token, profile
//! updates and password changes.

use vstd::prelude::*;

use crate::controller::ApiError;
use crate::model::{agree_except, lemma_group_at, lemma_take_succ, appended, group_coded, group_with, user_holding, user_with, NewUser, Store, Table, User};
use crate::text::copy_opt;
use crate::token::{make_token, token_of};

verus! {

pub struct CreateReq {
    pub name: Option<String>,
    pub code: String,
}

/// `u` is the row of a new user: no token yet, created and updated at `now`.
pub open spec fn new_user_row(u: User, id: i32, name: Option<String>, group_id: i32, now: i64) -> bool {
    &&& u.id == id
    &&& u.name == name
    &&& u.group_id == group_id
    &&& u.token@ == Seq::<char>::empty()
    &&& u.create_ts == now
    &&& u.update_ts == now
}

/// `r` and `new` are what creating user `req` on `old` at `now` gives.
pub open spec fn create_post(old: &Store, new: &Store, req: CreateReq, now: i64, r: Result<i32, ApiError>) -> bool {
    &&& (group_coded(old.groups@, req.code@).is_none()
        ==> r == Err::<i32, ApiError>(ApiError::UnknownGroup) && *new == *old)
    &&& (group_coded(old.groups@, req.code@) matches Some(g) ==> {
        &&& r is Ok <==> old.next_id < i32::MAX
        &&& r is Err ==> r == Err::<i32, ApiError>(ApiError::StoreFull) && *new == *old
        &&& r matches Ok(id) ==> appended(old, new, Table::Users, Ok(id))
            && new.users@.drop_last() == old.users@
            && new.users@.len() == old.users@.len() + 1
            && new_user_row(new.users@.last(), id, req.name, g.id, now)
    })
}

/// Creates a user in the group with the given code and returns the user's
/// id; the user has no token until a password is set.
pub fn create(store: &mut Store, req: CreateReq, now: i64) -> (r: Result<i32, ApiError>)
    requires
        old(store).wf(),
    ensures
        final(store).wf(),
        create_post(old(store), final(store), req, now, r),
{
    let g = match store.find_group_by_code(req.code.as_str()) {
        Some(k) => {
            proof { lemma_group_at(store.groups@, k as int); }
            store.groups[k].id
        },
        None => return Err(ApiError::UnknownGroup),
    };
    let ghost before = store.users@;
    match store.insert_user(NewUser { name: req.name, group_id: g }, String::new(), now) {
        Ok(id) => {
            assert(store.users@.drop_last() =~= before);
            Ok(id)
        },
        Err(_) => Err(ApiError::StoreFull),
    }
}

pub struct AuthReq {
    pub id: i32,
    pub password: String,
}

/// What a successful authentication returns.
pub struct AuthReply {
    pub token: String,
    pub code: String,
    pub name: Option<String>,
}

/// Whether user `id` exists and holds the token that this password gives.
pub open spec fn credentials_match(st: &Store, id: i32, password: Seq<char>) -> bool {
    user_with(st.users@, id) matches Some(u) && u.token@ == token_of(id, password)
}

/// `a` is the answer to a successful authentication of `req`: the token the
/// password gives, and the user's group code and name.
pub open spec fn is_auth_reply(st: &Store, req: &AuthReq, a: AuthReply) -> bool {
    let u = user_with(st.users@, req.id).unwrap();
    &&& a.token@ == token_of(req.id, req.password@)
    &&& a.code == group_with(st.groups@, u.group_id).unwrap().code
    &&& a.name == u.name
}

/// `r` is the answer to authentication request `req` on `store`.
pub open spec fn auth_post(store: &Store, req: &AuthReq, r: Result<AuthReply, ApiError>) -> bool {
    &&& (!credentials_match(store, req.id, req.password@)
        ==> r == Err::<AuthReply, ApiError>(ApiError::WrongUserPassword))
    &&& (credentials_match(store, req.id, req.password@) ==> (r matches Ok(a) && is_auth_reply(store, req, a)))
}

/// Checks a user's password: on a match, the user's token, group code and
/// name; otherwise `WrongUserPassword`.
pub fn auth(store: &Store, req: &AuthReq) -> (r: Result<AuthReply, ApiError>)
    requires
        store.wf(),
    ensures
        auth_post(store, req, r),
{
    let token = make_token(req.id, req.password.as_str());
    let k = match store.find_user(req.id) {
        Some(k) => k,
        None => return Err(ApiError::WrongUserPassword),
    };
    let u = &store.users[k];
    if u.token != token {
        return Err(ApiError::WrongUserPassword);
    }
    let g = match store.find_group(u.group_id) {
        Some(g) => g,
        None => return Err(ApiError::NotFound),
    };
    Ok(AuthReply { token, code: store.groups[g].code.clone(), name: copy_opt(&u.name) })
}

/// A user's public profile.
pub struct UserInfo {
    pub id: i32,
    pub name: Option<String>,
    pub code: String,
    pub create_ts: i64,
}

/// The profile of user `u`.
pub open spec fn info_of(st: &Store, u: User) -> UserInfo {
    UserInfo { id: u.id, name: u.name, code: group_with(st.groups@, u.group_id).unwrap().code, create_ts: u.create_ts }
}

/// `r` is the answer to looking up the user holding `token` in `store`.
pub open spec fn get_one_post(store: &Store, token: Seq<char>, r: Result<UserInfo, ApiError>) -> bool {
    &&& (match user_holding(store.users@, token) {
        None => r == Err::<UserInfo, ApiError>(ApiError::NotFound),
        Some(u) => r matches Ok(i) && i == info_of(store, u),
    })
}

/// The profile of the user holding the token.
pub fn get_one(store: &Store, token: &str) -> (r: Result<UserInfo, ApiError>)
    requires
        store.wf(),
    ensures
        get_one_post(store, token@, r),
{
    let k = match store.find_user_by_token(token) {
        Some(k) => k,
        None => return Err(ApiError::NotFound),
    };
    let u = &store.users[k];
    let g = match store.find_group(u.group_id) {
        Some(g) => g,
        None => return Err(ApiError::NotFound),
    };
    Ok(UserInfo { id: u.id, name: copy_opt(&u.name), code: store.groups[g].code.clone(), create_ts: u.create_ts })
}

pub struct UpdateReq {
    pub id: i32,
    pub name: String,
    pub code: String,
}

/// `r` and `new` are what user update `req` on `old` at `now` gives.
pub open spec fn update_post(old: &Store, new: &Store, req: UpdateReq, now: i64, r: Result<(), ApiError>) -> bool {
    &&& (group_coded(old.groups@, req.code@).is_none()
        ==> r == Err::<(), ApiError>(ApiError::UnknownGroup) && *new == *old)
    &&& (group_coded(old.groups@, req.code@) matches Some(g) ==> {
        &&& r == Ok::<(), ApiError>(())
        &&& new.next_id == old.next_id
        &&& agree_except(old, new, Table::Users)
        &&& new.users@.len() == old.users@.len()
        &&& forall|k: int| 0 <= k < old.users@.len() ==> #[trigger] new.users@[k] == (
            if old.users@[k].id == req.id {
                User { name: Some(req.name), group_id: g.id, update_ts: now, ..old.users@[k] }
            } else {
                old.users@[k]
            })
    })
}

/// Sets a user's name and group (by code).
pub fn update(store: &mut Store, req: UpdateReq, now: i64) -> (r: Result<(), ApiError>)
    requires
        old(store).wf(),
    ensures
        final(store).wf(),
        update_post(old(store), final(store), req, now, r),
{
    let g = match store.find_group_by_code(req.code.as_str()) {
        Some(k) => {
            proof { lemma_group_at(store.groups@, k as int); }
            store.groups[k].id
        },
        None => return Err(ApiError::UnknownGroup),
    };
    store.update_user(req.id, Some(req.name), g, now);
    Ok(())
}

/// `after` is `before` with the token of user `id` set to `token`.
pub open spec fn token_set(before: &Store, after: &Store, id: i32, token: Seq<char>) -> bool {
    &&& after.next_id == before.next_id
    &&& agree_except(before, after, Table::Users)
    &&& after.users@.len() == before.users@.len()
    &&& forall|k: int| 0 <= k < before.users@.len() ==> #[trigger] after.users@[k] == (
        if before.users@[k].id == id {
            User { token: after.users@[k].token, ..before.users@[k] }
        } else {
            before.users@[k]
        })
    &&& forall|k: int| 0 <= k < before.users@.len() && before.users@[k].id == id
        ==> #[trigger] after.users@[k].token@ == token
}

pub struct ChangePasswordReq {
    pub id: i32,
    pub password: String,
}

/// `r` and `new` are what password change `req` on `old` gives.
pub open spec fn change_password_post(old: &Store, new: &Store, req: &ChangePasswordReq, r: Result<String, ApiError>) -> bool {
    &&& (r matches Ok(t) && t@ == token_of(req.id, req.password@))
    &&& (token_set(old, new, req.id, token_of(req.id, req.password@)))
}

/// Sets the user's token to the one the new password gives, and returns it.
pub fn change_password(store: &mut Store, req: &ChangePasswordReq) -> (r: Result<String, ApiError>)
    requires
        old(store).wf(),
    ensures
        final(store).wf(),
        change_password_post(old(store), final(store), req, r),
{
    let token = make_token(req.id, req.password.as_str());
    store.set_token(req.id, &token);
    Ok(token)
}

/// Over each prefix of the users table, setting user `id`'s token keeps
/// the same user found and gives it the new token.
proof fn lemma_token_set_prefix(before: Seq<User>, after: Seq<User>, id: i32, token: Seq<char>, k: int)
    requires
        0 <= k <= before.len(),
        after.len() == before.len(),
        forall|j: int| 0 <= j < before.len() ==> #[trigger] after[j] == (
            if before[j].id == id {
                User { token: after[j].token, ..before[j] }
            } else {
                before[j]
            }),
        forall|j: int| 0 <= j < before.len() && before[j].id == id ==> #[trigger] after[j].token@ == token,
    ensures
        user_with(after.take(k), id).is_some() == user_with(before.take(k), id).is_some(),
        user_with(after.take(k), id) matches Some(u) ==> u.token@ == token,
    decreases k,
{
    if k > 0 {
        lemma_token_set_prefix(before, after, id, token, k - 1);
        lemma_take_succ(before, k - 1);
        lemma_take_succ(after, k - 1);
    }
}

/// After a user's password is changed, authenticating with the new
/// password succeeds.
pub proof fn lemma_auth_after_change(before: &Store, after: &Store, id: i32, password: Seq<char>)
    requires
        user_with(before.users@, id).is_some(),
        token_set(before, after, id, token_of(id, password)),
    ensures
        credentials_match(after, id, password),
{
    lemma_token_set_prefix(before.users@, after.users@, id, token_of(id, password), before.users@.len() as int);
    assert(before.users@.take(before.users@.len() as int) =~= before.users@);
    assert(after.users@.take(after.users@.len() as int) =~= after.users@);
}

} // verus!
