//! Comments on entries: create, a paginated listing, and edits.

use vstd::prelude::*;

use crate::controller::mandela::comment_count;
use crate::controller::ApiError;
use crate::model::{agree_except, appended, entry_with, lemma_take_succ, user_with, Comment, Store, Table};
use crate::page::{page, take_page};
use crate::text::copy_opt;

verus! {

/// The fields of a comment that its author writes.
pub struct NewComment {
    pub mandela_id: i32,
    pub user_id: i32,
    pub message: String,
}

/// `r` and `new` are what creating comment `req` on `old` at `now` gives.
pub open spec fn create_post(old: &Store, new: &Store, req: NewComment, now: i64, r: Result<(), ApiError>) -> bool {
    &&& ((entry_with(old.entries@, req.mandela_id).is_none() || user_with(old.users@, req.user_id).is_none())
        ==> r == Err::<(), ApiError>(ApiError::MissingReference) && *new == *old)
    &&& ((entry_with(old.entries@, req.mandela_id).is_some() && user_with(old.users@, req.user_id).is_some())
        ==> {
        &&& r is Ok <==> old.next_id < i32::MAX
        &&& r is Err ==> r == Err::<(), ApiError>(ApiError::StoreFull) && *new == *old
        &&& r is Ok ==> appended(old, new, Table::Comments, Ok(old.next_id))
            && new.comments@ == old.comments@.push(Comment {
                id: old.next_id,
                mandela_id: req.mandela_id,
                user_id: req.user_id,
                message: req.message,
                create_ts: now,
                update_ts: now,
            })
    })
}

/// Stores a comment by an existing user on an existing entry.
pub fn create(store: &mut Store, req: NewComment, now: i64) -> (r: Result<(), ApiError>)
    requires
        old(store).wf(),
    ensures
        final(store).wf(),
        create_post(old(store), final(store), req, now, r),
{
    if store.find_entry(req.mandela_id).is_none() || store.find_user(req.user_id).is_none() {
        return Err(ApiError::MissingReference);
    }
    match store.insert_comment(req.mandela_id, req.user_id, req.message, now) {
        Ok(_) => Ok(()),
        Err(_) => Err(ApiError::StoreFull),
    }
}

/// One row of a comment listing.
pub struct CommentRow {
    pub id: i32,
    pub user_id: i32,
    pub user_name: Option<String>,
    pub message: String,
    pub create_ts: i64,
    pub update_ts: i64,
}

/// The listing row of comment `c`.
pub open spec fn comment_row(st: &Store, c: Comment) -> CommentRow {
    CommentRow {
        id: c.id,
        user_id: c.user_id,
        user_name: user_with(st.users@, c.user_id).unwrap().name,
        message: c.message,
        create_ts: c.create_ts,
        update_ts: c.update_ts,
    }
}

/// The rows of the comments of `t` on entry `eid` whose author exists, oldest
/// first.
pub open spec fn comment_listing(st: &Store, eid: i32, t: Seq<Comment>) -> Seq<CommentRow>
    decreases t.len(),
{
    if t.len() == 0 {
        Seq::empty()
    } else {
        let rest = comment_listing(st, eid, t.drop_last());
        if t.last().mandela_id == eid && user_with(st.users@, t.last().user_id).is_some() {
            rest.push(comment_row(st, t.last()))
        } else {
            rest
        }
    }
}

pub struct GetAllReq {
    pub mandela_id: i32,
    pub offset: i64,
    pub limit: i64,
}

/// A page of an entry's comments, with their total number.
pub struct CommentList {
    pub total_count: i64,
    pub comments: Vec<CommentRow>,
}

/// `r` is the answer to comment listing request `req` on `store`.
pub open spec fn get_all_post(store: &Store, req: &GetAllReq, r: Result<CommentList, ApiError>) -> bool {
    &&& ((req.offset < 0 || req.limit < 0) ==> r == Err::<CommentList, ApiError>(ApiError::BadParams))
    &&& ((req.offset >= 0 && req.limit >= 0) ==> (r matches Ok(l)
        && l.comments@ == page(comment_listing(store, req.mandela_id, store.comments@), req.offset as int, req.limit as int)
        && l.total_count == comment_count(store.comments@, req.mandela_id)))
}

/// A page of the comments on an entry, oldest first, and how many comments
/// the entry has.
pub fn get_all(store: &Store, req: &GetAllReq) -> (r: Result<CommentList, ApiError>)
    requires
        store.wf(),
    ensures
        get_all_post(store, req, r),
{
    if req.offset < 0 || req.limit < 0 {
        return Err(ApiError::BadParams);
    }
    let mut rows: Vec<CommentRow> = Vec::new();
    let mut total: usize = 0;
    let mut i: usize = 0;
    assert(crate::model::comment_ids(store.comments@).len() == store.comments@.len());
    while i < store.comments.len()
        invariant
            i <= store.comments@.len(),
            store.comments@.len() < i32::MAX,
            rows@ == comment_listing(store, req.mandela_id, store.comments@.take(i as int)),
            total == comment_count(store.comments@.take(i as int), req.mandela_id),
            total <= i,
        decreases store.comments@.len() - i,
    {
        proof { lemma_take_succ(store.comments@, i as int); }
        let c = &store.comments[i];
        if c.mandela_id == req.mandela_id {
            total = total + 1;
            if let Some(k) = store.find_user(c.user_id) {
                rows.push(CommentRow {
                    id: c.id,
                    user_id: c.user_id,
                    user_name: copy_opt(&store.users[k].name),
                    message: c.message.clone(),
                    create_ts: c.create_ts,
                    update_ts: c.update_ts,
                });
            }
        }
        i = i + 1;
    }
    assert(store.comments@.take(i as int) =~= store.comments@);
    let comments = take_page(rows, req.offset, req.limit);
    Ok(CommentList { total_count: total as i64, comments })
}

pub struct UpdateReq {
    pub id: i32,
    pub message: String,
}

/// `r` and `new` are what editing comment `req` on `old` gives.
pub open spec fn update_post(old: &Store, new: &Store, req: &UpdateReq, r: Result<(), ApiError>) -> bool {
    &&& (r is Ok)
    &&& (new.next_id == old.next_id)
    &&& (agree_except(old, new, Table::Comments))
    &&& (new.comments@.len() == old.comments@.len())
    &&& (forall|k: int| 0 <= k < old.comments@.len() ==> #[trigger] new.comments@[k] == (
        if old.comments@[k].id == req.id {
            Comment { message: req.message, ..old.comments@[k] }
        } else {
            old.comments@[k]
        }))
}

/// Replaces the message of the comment with the given id.
pub fn update(store: &mut Store, req: &UpdateReq) -> (r: Result<(), ApiError>)
    requires
        old(store).wf(),
    ensures
        final(store).wf(),
        update_post(old(store), final(store), req, r),
{
    store.update_comment(req.id, &req.message);
    Ok(())
}

} // verus!
