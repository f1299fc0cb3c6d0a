//! Topics: plain create, read and delete.

use vstd::prelude::*;

use crate::controller::ApiError;
use crate::model::{agree_except, appended, lemma_take_succ, topic_with, topics_kept, user_with, Store, Table, Topic};

verus! {

/// The fields of a topic that its author writes.
pub struct NewTopic {
    pub title: String,
    pub description: String,
    pub user_id: i32,
}

/// `r` and `new` are what creating topic `req` on `old` at `now` gives.
pub open spec fn create_post(old: &Store, new: &Store, req: NewTopic, now: i64, r: Result<i32, ApiError>) -> bool {
    &&& (user_with(old.users@, req.user_id).is_none()
        ==> r == Err::<i32, ApiError>(ApiError::MissingReference) && *new == *old)
    &&& (user_with(old.users@, req.user_id).is_some() ==> {
        &&& r is Ok <==> old.next_id < i32::MAX
        &&& r is Err ==> r == Err::<i32, ApiError>(ApiError::StoreFull) && *new == *old
        &&& r matches Ok(id) ==> appended(old, new, Table::Topics, Ok(id))
            && new.topics@ == old.topics@.push(Topic {
                id,
                title: req.title,
                description: req.description,
                create_ts: now,
                update_ts: now,
                user_id: req.user_id,
            })
    })
}

/// Stores a new topic of an existing user and returns its id.
pub fn create(store: &mut Store, req: NewTopic, now: i64) -> (r: Result<i32, ApiError>)
    requires
        old(store).wf(),
    ensures
        final(store).wf(),
        create_post(old(store), final(store), req, now, r),
{
    if store.find_user(req.user_id).is_none() {
        return Err(ApiError::MissingReference);
    }
    match store.insert_topic(req.title, req.description, req.user_id, now) {
        Ok(id) => Ok(id),
        Err(_) => Err(ApiError::StoreFull),
    }
}

/// `r` is the answer to looking up topic `id` in `store`: the topic, as a
/// list of at most one.
pub open spec fn get_one_post(store: &Store, id: i32, r: Vec<Topic>) -> bool {
    r@ == match topic_with(store.topics@, id) {
        Some(t) => seq![t],
        None => Seq::<Topic>::empty(),
    }
}

/// The topic with the given id, as a list of at most one.
pub fn get_one(store: &Store, id: i32) -> (r: Vec<Topic>)
    ensures
        get_one_post(store, id, r),
{
    let mut r: Vec<Topic> = Vec::new();
    if let Some(k) = store.find_topic(id) {
        r.push(store.topics[k].copy());
        assert(r@ =~= seq![store.topics@[k as int]]);
    } else {
        assert(r@ =~= Seq::<Topic>::empty());
    }
    r
}

/// The rows of `t`, newest first.
pub open spec fn newest_first(t: Seq<Topic>) -> Seq<Topic>
    decreases t.len(),
{
    if t.len() == 0 {
        Seq::empty()
    } else {
        seq![t.last()] + newest_first(t.drop_last())
    }
}

/// `r` is the answer to listing every topic of `store`, newest first.
pub open spec fn get_all_post(store: &Store, r: Vec<Topic>) -> bool {
    r@ == newest_first(store.topics@)
}

/// Every topic, newest first.
pub fn get_all(store: &Store) -> (r: Vec<Topic>)
    ensures
        get_all_post(store, r),
{
    let mut r: Vec<Topic> = Vec::new();
    let mut i: usize = 0;
    while i < store.topics.len()
        invariant
            i <= store.topics@.len(),
            r@ == newest_first(store.topics@.take(i as int)),
        decreases store.topics@.len() - i,
    {
        proof { lemma_take_succ(store.topics@, i as int); }
        let t = store.topics[i].copy();
        r.insert(0, t);
        assert(r@ =~= seq![store.topics@[i as int]] + newest_first(store.topics@.take(i as int)));
        i = i + 1;
    }
    assert(store.topics@.take(i as int) =~= store.topics@);
    r
}

/// `r` and `new` are what deleting topics `ids` from `old` gives.
pub open spec fn delete_post(old: &Store, new: &Store, ids: &Vec<i32>, r: Result<(), ApiError>) -> bool {
    &&& (r is Ok)
    &&& (new.next_id == old.next_id)
    &&& (agree_except(old, new, Table::Topics))
    &&& (new.topics@ == topics_kept(old.topics@, ids@))
}

/// Removes the topics with the given ids.
pub fn delete(store: &mut Store, ids: &Vec<i32>) -> (r: Result<(), ApiError>)
    requires
        old(store).wf(),
    ensures
        final(store).wf(),
        delete_post(old(store), final(store), ids, r),
{
    store.delete_topics(ids);
    Ok(())
}

} // verus!
