//! Entries: their listing and detail views, and the writes on them
//! (create, update, delete, mark, vote).

use vstd::prelude::*;

use crate::controller::ApiError;
use crate::model::{
    appended, entries_kept, entry_row, entry_with, lemma_take_succ, user_with, Category, Comment, Entry,
    Mark, NewEntry, Store, Table, User, Vote, agree_except,
};
use crate::page::{page, take_page};
use crate::text::copy_opt;

verus! {

/// Which entries a listing shows.
#[derive(PartialEq, Eq, Structural, Clone, Copy, Debug)]
pub enum Filter {
    /// Every entry.
    All,
    /// The entries the viewer has not marked.
    Unseen,
    /// The entries the viewer owns.
    Mine,
}

pub open spec fn spec_filter_of(f: Option<i8>) -> Option<Filter> {
    match f {
        None => Some(Filter::All),
        Some(0) => Some(Filter::All),
        Some(1) => Some(Filter::Unseen),
        Some(2) => Some(Filter::Mine),
        Some(_) => None,
    }
}

/// The filter that a wire value selects: absent or 0 for all, 1 for
/// unseen, 2 for mine; any other value selects none.
#[verifier::when_used_as_spec(spec_filter_of)]
pub fn filter_of(f: Option<i8>) -> (r: Option<Filter>)
    ensures
        r == spec_filter_of(f),
{
    match f {
        None => Some(Filter::All),
        Some(0) => Some(Filter::All),
        Some(1) => Some(Filter::Unseen),
        Some(2) => Some(Filter::Mine),
        Some(_) => None,
    }
}

/// The number of comments on entry `eid`.
pub open spec fn comment_count(t: Seq<Comment>, eid: i32) -> nat
    decreases t.len(),
{
    if t.len() == 0 {
        0
    } else {
        comment_count(t.drop_last(), eid) + if t.last().mandela_id == eid { 1nat } else { 0nat }
    }
}

/// When `viewer` marked entry `eid` (the latest such mark), if they did;
/// never when there is no viewer.
pub open spec fn mark_ts_of(t: Seq<Mark>, viewer: Option<i32>, eid: i32) -> Option<i64>
    decreases t.len(),
{
    if t.len() == 0 || viewer.is_none() {
        None
    } else if t.last().user_id == viewer.unwrap() && t.last().mandela_id == eid {
        Some(t.last().create_ts)
    } else {
        mark_ts_of(t.drop_last(), viewer, eid)
    }
}

/// The number of marks made by user `uid`.
pub open spec fn marks_by(t: Seq<Mark>, uid: i32) -> nat
    decreases t.len(),
{
    if t.len() == 0 {
        0
    } else {
        marks_by(t.drop_last(), uid) + if t.last().user_id == uid { 1nat } else { 0nat }
    }
}

/// The number of entries owned by user `uid`.
pub open spec fn owned_by(t: Seq<Entry>, uid: i32) -> nat
    decreases t.len(),
{
    if t.len() == 0 {
        0
    } else {
        owned_by(t.drop_last(), uid) + if t.last().user_id == uid { 1nat } else { 0nat }
    }
}

/// One row of an entry listing.
pub struct EntryRow {
    pub id: i32,
    pub title_mode: i32,
    pub title: String,
    pub what: String,
    pub before: String,
    pub after: String,
    pub create_ts: i64,
    pub user_name: Option<String>,
    pub user_id: i32,
    pub comment_count: usize,
    pub mark_ts: Option<i64>,
}

/// Whether a listing with this viewer and filter shows entry `e`.
pub open spec fn shown(st: &Store, viewer: Option<i32>, filter: Filter, e: Entry) -> bool {
    match filter {
        Filter::All => true,
        Filter::Unseen => mark_ts_of(st.marks@, viewer, e.id).is_none(),
        Filter::Mine => viewer == Some(e.user_id),
    }
}

/// The listing row of entry `e` for this viewer.
pub open spec fn row_of(st: &Store, viewer: Option<i32>, e: Entry) -> EntryRow {
    EntryRow {
        id: e.id,
        title_mode: e.title_mode,
        title: e.title,
        what: e.what,
        before: e.before,
        after: e.after,
        create_ts: e.create_ts,
        user_name: user_with(st.users@, e.user_id).unwrap().name,
        user_id: e.user_id,
        comment_count: comment_count(st.comments@, e.id) as usize,
        mark_ts: mark_ts_of(st.marks@, viewer, e.id),
    }
}

/// The rows for the entries of `t` that the listing shows, newest first.
pub open spec fn listing(st: &Store, viewer: Option<i32>, filter: Filter, t: Seq<Entry>) -> Seq<EntryRow>
    decreases t.len(),
{
    if t.len() == 0 {
        Seq::empty()
    } else {
        let rest = listing(st, viewer, filter, t.drop_last());
        if shown(st, viewer, filter, t.last()) {
            seq![row_of(st, viewer, t.last())] + rest
        } else {
            rest
        }
    }
}

pub struct GetAllReq {
    pub offset: i64,
    pub limit: i64,
    pub user_id: Option<i32>,
    pub filter: Option<i8>,
}

/// A page of the entry listing with its summary counters.
pub struct EntryList {
    pub total_count: i64,
    pub new_count: i64,
    pub mine_count: i64,
    pub mandels: Vec<EntryRow>,
}

/// The number of comments on entry `eid`.
fn count_comments(st: &Store, eid: i32) -> (r: usize)
    ensures
        r == comment_count(st.comments@, eid),
{
    let mut n: usize = 0;
    let mut i: usize = 0;
    while i < st.comments.len()
        invariant
            i <= st.comments@.len(),
            n == comment_count(st.comments@.take(i as int), eid),
            n <= i,
        decreases st.comments@.len() - i,
    {
        proof { lemma_take_succ(st.comments@, i as int); }
        if st.comments[i].mandela_id == eid {
            n = n + 1;
        }
        i = i + 1;
    }
    assert(st.comments@.take(i as int) =~= st.comments@);
    n
}

/// When the viewer marked entry `eid`, if they did.
fn find_mark_ts(st: &Store, viewer: Option<i32>, eid: i32) -> (r: Option<i64>)
    ensures
        r == mark_ts_of(st.marks@, viewer, eid),
{
    let v = match viewer {
        Some(v) => v,
        None => return None,
    };
    let mut r: Option<i64> = None;
    let mut i: usize = 0;
    while i < st.marks.len()
        invariant
            i <= st.marks@.len(),
            viewer == Some(v),
            r == mark_ts_of(st.marks@.take(i as int), viewer, eid),
        decreases st.marks@.len() - i,
    {
        proof { lemma_take_succ(st.marks@, i as int); }
        if st.marks[i].user_id == v && st.marks[i].mandela_id == eid {
            r = Some(st.marks[i].create_ts);
        }
        i = i + 1;
    }
    assert(st.marks@.take(i as int) =~= st.marks@);
    r
}

/// The number of marks that user `uid` made.
fn count_marks_by(st: &Store, uid: i32) -> (r: usize)
    ensures
        r == marks_by(st.marks@, uid),
        r <= st.marks@.len(),
{
    let mut n: usize = 0;
    let mut i: usize = 0;
    while i < st.marks.len()
        invariant
            i <= st.marks@.len(),
            n == marks_by(st.marks@.take(i as int), uid),
            n <= i,
        decreases st.marks@.len() - i,
    {
        proof { lemma_take_succ(st.marks@, i as int); }
        if st.marks[i].user_id == uid {
            n = n + 1;
        }
        i = i + 1;
    }
    assert(st.marks@.take(i as int) =~= st.marks@);
    n
}

/// The number of entries that user `uid` owns.
fn count_owned_by(st: &Store, uid: i32) -> (r: usize)
    ensures
        r == owned_by(st.entries@, uid),
        r <= st.entries@.len(),
{
    let mut n: usize = 0;
    let mut i: usize = 0;
    while i < st.entries.len()
        invariant
            i <= st.entries@.len(),
            n == owned_by(st.entries@.take(i as int), uid),
            n <= i,
        decreases st.entries@.len() - i,
    {
        proof { lemma_take_succ(st.entries@, i as int); }
        if st.entries[i].user_id == uid {
            n = n + 1;
        }
        i = i + 1;
    }
    assert(st.entries@.take(i as int) =~= st.entries@);
    n
}

/// The listing row of entry `e`, whose owner is `owner`.
fn compose_row(st: &Store, viewer: Option<i32>, e: &Entry, owner: &User) -> (r: EntryRow)
    requires
        user_with(st.users@, e.user_id) == Some(*owner),
    ensures
        r == row_of(st, viewer, *e),
{
    EntryRow {
        id: e.id,
        title_mode: e.title_mode,
        title: e.title.clone(),
        what: e.what.clone(),
        before: e.before.clone(),
        after: e.after.clone(),
        create_ts: e.create_ts,
        user_name: copy_opt(&owner.name),
        user_id: e.user_id,
        comment_count: count_comments(st, e.id),
        mark_ts: find_mark_ts(st, viewer, e.id),
    }
}

/// The rows of every entry the listing shows, newest first.
fn list_rows(st: &Store, viewer: Option<i32>, filter: Filter) -> (r: Vec<EntryRow>)
    requires
        st.wf(),
    ensures
        r@ == listing(st, viewer, filter, st.entries@),
{
    let mut rows: Vec<EntryRow> = Vec::new();
    let mut i: usize = 0;
    while i < st.entries.len()
        invariant
            st.wf(),
            i <= st.entries@.len(),
            rows@ == listing(st, viewer, filter, st.entries@.take(i as int)),
        decreases st.entries@.len() - i,
    {
        proof { lemma_take_succ(st.entries@, i as int); }
        let e = &st.entries[i];
        if let Some(k) = st.find_user(e.user_id) {
            let keep = match filter {
                Filter::All => true,
                Filter::Unseen => find_mark_ts(st, viewer, e.id).is_none(),
                Filter::Mine => viewer == Some(e.user_id),
            };
            if keep {
                let row = compose_row(st, viewer, e, &st.users[k]);
                rows.insert(0, row);
                assert(rows@ =~= seq![row_of(st, viewer, *e)] + listing(st, viewer, filter, st.entries@.take(i as int)));
            }
        } else {
            assert(user_with(st.users@, st.entries@[i as int].user_id).is_some());
        }
        i = i + 1;
    }
    assert(st.entries@.take(i as int) =~= st.entries@);
    rows
}

/// The `new_count` of a listing: all entries less the marks the viewer
/// made; zero without a viewer.
pub open spec fn new_count_of(st: &Store, viewer: Option<i32>) -> int {
    match viewer {
        Some(v) => st.entries@.len() - marks_by(st.marks@, v),
        None => 0,
    }
}

/// The `mine_count` of a listing: the entries the viewer owns; zero
/// without a viewer.
pub open spec fn mine_count_of(st: &Store, viewer: Option<i32>) -> int {
    match viewer {
        Some(v) => owned_by(st.entries@, v) as int,
        None => 0,
    }
}

/// `l` is the answer to listing request `req`: the requested page of the
/// rows the filter shows, and the summary counters.
pub open spec fn is_listing(store: &Store, req: &GetAllReq, l: EntryList) -> bool {
    &&& l.mandels@ == page(
        listing(store, req.user_id, spec_filter_of(req.filter).unwrap(), store.entries@),
        req.offset as int,
        req.limit as int,
    )
    &&& l.total_count == store.entries@.len()
    &&& l.new_count == new_count_of(store, req.user_id)
    &&& l.mine_count == mine_count_of(store, req.user_id)
}

/// `r` is the answer to listing request `req` on `store`.
pub open spec fn get_all_post(store: &Store, req: &GetAllReq, r: Result<EntryList, ApiError>) -> bool {
    &&& ((req.offset < 0 || req.limit < 0) ==> r == Err::<EntryList, ApiError>(ApiError::BadParams))
    &&& ((req.offset >= 0 && req.limit >= 0 && spec_filter_of(req.filter).is_none())
        ==> r == Err::<EntryList, ApiError>(ApiError::UnknownFilter))
    &&& ((req.offset >= 0 && req.limit >= 0 && spec_filter_of(req.filter).is_some())
        ==> (r matches Ok(l) && is_listing(store, req, l)))
}

/// A page of the entries that the filter shows to the viewer, newest first,
/// each with its comment count and the viewer's mark time, and the summary
/// counters.
pub fn get_all(store: &Store, req: &GetAllReq) -> (r: Result<EntryList, ApiError>)
    requires
        store.wf(),
    ensures
        get_all_post(store, req, r),
{
    if req.offset < 0 || req.limit < 0 {
        return Err(ApiError::BadParams);
    }
    let filter = match filter_of(req.filter) {
        Some(f) => f,
        None => return Err(ApiError::UnknownFilter),
    };
    let rows = list_rows(store, req.user_id, filter);
    let mandels = take_page(rows, req.offset, req.limit);
    assert(crate::model::entry_ids(store.entries@).len() == store.entries@.len());
    let total = store.entries.len();
    let (new_count, mine_count) = match req.user_id {
        Some(v) => {
            let marked = count_marks_by(store, v);
            let mine = count_owned_by(store, v);
            (total as i64 - marked as i64, mine as i64)
        },
        None => (0i64, 0i64),
    };
    Ok(EntryList { total_count: total as i64, new_count, mine_count, mandels })
}

/// How many votes of entry `eid` have value `v`.
pub open spec fn vote_count(t: Seq<Vote>, eid: i32, v: i16) -> nat
    decreases t.len(),
{
    if t.len() == 0 {
        0
    } else {
        vote_count(t.drop_last(), eid, v) + if t.last().mandela_id == eid && t.last().vote == v {
            1nat
        } else {
            0nat
        }
    }
}

/// Whether user `uid` has a vote on entry `eid`.
pub open spec fn has_voted(t: Seq<Vote>, eid: i32, uid: i32) -> bool {
    exists|k: int| 0 <= k < t.len() && #[trigger] t[k].mandela_id == eid && t[k].user_id == uid
}

/// How many votes an entry has of one value.
pub struct VoteCount {
    pub vote: i16,
    pub count: i64,
}

/// `r` is the tally of the votes on entry `eid`: one item for each value
/// that occurs, with the number of votes of that value.
pub open spec fn is_tally(r: Seq<VoteCount>, t: Seq<Vote>, eid: i32) -> bool {
    &&& forall|i: int, j: int| 0 <= i < j < r.len() ==> r[i].vote != r[j].vote
    &&& forall|i: int| 0 <= i < r.len() ==> #[trigger] r[i].count == vote_count(t, eid, r[i].vote) && r[i].count > 0
    &&& forall|v: i16| #[trigger] vote_count(t, eid, v) > 0 ==> exists|i: int| 0 <= i < r.len() && r[i].vote == v
}

/// The tally of the votes on entry `eid`.
pub fn tally(store: &Store, eid: i32) -> (r: Vec<VoteCount>)
    requires
        store.wf(),
    ensures
        is_tally(r@, store.votes@, eid),
{
    let ghost t = store.votes@;
    assert(crate::model::vote_ids(t).len() == t.len());
    let mut acc: Vec<VoteCount> = Vec::new();
    let mut k: usize = 0;
    while k < store.votes.len()
        invariant
            k <= t.len(),
            t.len() < i32::MAX,
            t == store.votes@,
            is_tally(acc@, t.take(k as int), eid),
            forall|i: int| 0 <= i < acc@.len() ==> #[trigger] acc@[i].count <= k,
        decreases t.len() - k,
    {
        proof {
            lemma_take_succ(t, k as int);
            assert forall|w: i16| #[trigger] vote_count(t.take(k + 1), eid, w) == vote_count(t.take(k as int), eid, w)
                + if t[k as int].mandela_id == eid && t[k as int].vote == w { 1nat } else { 0nat } by {}
        }
        if store.votes[k].mandela_id == eid {
            let v = store.votes[k].vote;
            let mut found: Option<usize> = None;
            let mut j: usize = 0;
            while j < acc.len()
                invariant
                    j <= acc@.len(),
                    match found {
                        Some(f) => f < acc@.len() && acc@[f as int].vote == v,
                        None => forall|jj: int| 0 <= jj < j ==> acc@[jj].vote != v,
                    },
                decreases acc@.len() - j,
            {
                if found.is_none() && acc[j].vote == v {
                    found = Some(j);
                }
                j = j + 1;
            }
            if let Some(j) = found {
                let c = acc[j].count;
                let ghost before = acc@;
                acc.set(j, VoteCount { vote: v, count: c + 1 });
                proof {
                    assert(acc@ == before.update(j as int, VoteCount { vote: v, count: (c + 1) as i64 }));
                    assert forall|i: int| 0 <= i < acc@.len() implies #[trigger] acc@[i].count
                        == vote_count(t.take(k + 1), eid, acc@[i].vote) && acc@[i].count > 0 by {
                        assert(before[i].count == vote_count(t.take(k as int), eid, before[i].vote));
                    }
                    assert forall|w: i16| #[trigger] vote_count(t.take(k + 1), eid, w) > 0 implies
                        exists|i: int| 0 <= i < acc@.len() && acc@[i].vote == w by {
                        if w != v {
                            assert(vote_count(t.take(k as int), eid, w) > 0);
                            let i = choose|i: int| 0 <= i < before.len() && before[i].vote == w;
                            assert(acc@[i].vote == w);
                        } else {
                            assert(acc@[j as int].vote == w);
                        }
                    }
                }
            } else {
                let ghost before = acc@;
                acc.push(VoteCount { vote: v, count: 1 });
                proof {
                    assert(vote_count(t.take(k as int), eid, v) == 0) by {
                        if vote_count(t.take(k as int), eid, v) > 0 {
                            let i = choose|i: int| 0 <= i < before.len() && before[i].vote == v;
                        }
                    }
                    assert forall|i: int| 0 <= i < acc@.len() implies #[trigger] acc@[i].count
                        == vote_count(t.take(k + 1), eid, acc@[i].vote) && acc@[i].count > 0 by {
                        if i < before.len() {
                            assert(before[i].count == vote_count(t.take(k as int), eid, before[i].vote));
                        }
                    }
                    assert forall|w: i16| #[trigger] vote_count(t.take(k + 1), eid, w) > 0 implies
                        exists|i: int| 0 <= i < acc@.len() && acc@[i].vote == w by {
                        if w != v {
                            assert(vote_count(t.take(k as int), eid, w) > 0);
                            let i = choose|i: int| 0 <= i < before.len() && before[i].vote == w;
                            assert(acc@[i].vote == w);
                        } else {
                            assert(acc@[before.len() as int].vote == w);
                        }
                    }
                }
            }
        } else {
            proof {
                assert forall|i: int| 0 <= i < acc@.len() implies #[trigger] acc@[i].count
                    == vote_count(t.take(k + 1), eid, acc@[i].vote) && acc@[i].count > 0 by {
                    assert(acc@[i].count == vote_count(t.take(k as int), eid, acc@[i].vote));
                }
                assert forall|w: i16| #[trigger] vote_count(t.take(k + 1), eid, w) > 0 implies
                    exists|i: int| 0 <= i < acc@.len() && acc@[i].vote == w by {
                    assert(vote_count(t.take(k as int), eid, w) > 0);
                }
            }
        }
        k = k + 1;
    }
    assert(t.take(k as int) =~= t);
    acc
}

/// The detail view of an entry.
pub struct EntryView {
    pub id: i32,
    pub title: String,
    pub title_mode: i32,
    pub description: String,
    pub user_id: i32,
    pub user_name: Option<String>,
    pub images: String,
    pub videos: String,
    pub links: String,
    pub create_ts: i64,
    pub update_ts: i64,
    pub what: String,
    pub before: String,
    pub after: String,
    pub mark_ts: Option<i64>,
}

/// The detail view of entry `e` for this viewer.
pub open spec fn view_of(st: &Store, viewer: Option<i32>, e: Entry) -> EntryView {
    EntryView {
        id: e.id,
        title: e.title,
        title_mode: e.title_mode,
        description: e.description,
        user_id: e.user_id,
        user_name: user_with(st.users@, e.user_id).unwrap().name,
        images: e.images,
        videos: e.videos,
        links: e.links,
        create_ts: e.create_ts,
        update_ts: e.update_ts,
        what: e.what,
        before: e.before,
        after: e.after,
        mark_ts: mark_ts_of(st.marks@, viewer, e.id),
    }
}

pub struct GetOneReq {
    pub id: i32,
    pub user_id: Option<i32>,
}

/// An entry's detail view, with the vote tally where the viewer has voted.
pub struct EntryDetail {
    pub mandela: EntryView,
    pub votes: Option<Vec<VoteCount>>,
}

/// `d` is the answer to detail request `req` about entry `e`.
pub open spec fn is_detail(st: &Store, req: &GetOneReq, e: Entry, d: EntryDetail) -> bool {
    &&& d.mandela == view_of(st, req.user_id, e)
    &&& d.votes.is_some() <==> (req.user_id matches Some(v) && has_voted(st.votes@, req.id, v))
    &&& d.votes matches Some(t) ==> is_tally(t@, st.votes@, req.id)
}

/// Whether user `uid` has voted on entry `eid`.
fn voted(st: &Store, eid: i32, uid: i32) -> (r: bool)
    ensures
        r == has_voted(st.votes@, eid, uid),
{
    let mut i: usize = 0;
    while i < st.votes.len()
        invariant
            i <= st.votes@.len(),
            forall|k: int| 0 <= k < i ==> !(#[trigger] st.votes@[k].mandela_id == eid && st.votes@[k].user_id == uid),
        decreases st.votes@.len() - i,
    {
        if st.votes[i].mandela_id == eid && st.votes[i].user_id == uid {
            return true;
        }
        i = i + 1;
    }
    false
}

/// `r` is the answer to detail request `req` on `store`.
pub open spec fn get_one_post(store: &Store, req: &GetOneReq, r: Result<EntryDetail, ApiError>) -> bool {
    &&& (match entry_with(store.entries@, req.id) {
        Some(e) => r matches Ok(d) && is_detail(store, req, e, d),
        None => r == Err::<EntryDetail, ApiError>(ApiError::NotFound),
    })
}

/// The detail view of an entry, with its tally when the viewer has voted
/// on it; `NotFound` when no entry has that id.
pub fn get_one(store: &Store, req: &GetOneReq) -> (r: Result<EntryDetail, ApiError>)
    requires
        store.wf(),
    ensures
        get_one_post(store, req, r),
{
    let k = match store.find_entry(req.id) {
        Some(k) => k,
        None => return Err(ApiError::NotFound),
    };
    let e = &store.entries[k];
    let u = match store.find_user(e.user_id) {
        Some(u) => u,
        None => return Err(ApiError::NotFound),
    };
    let owner = &store.users[u];
    let mandela = EntryView {
        id: e.id,
        title: e.title.clone(),
        title_mode: e.title_mode,
        description: e.description.clone(),
        user_id: e.user_id,
        user_name: copy_opt(&owner.name),
        images: e.images.clone(),
        videos: e.videos.clone(),
        links: e.links.clone(),
        create_ts: e.create_ts,
        update_ts: e.update_ts,
        what: e.what.clone(),
        before: e.before.clone(),
        after: e.after.clone(),
        mark_ts: find_mark_ts(store, req.user_id, e.id),
    };
    let votes = match req.user_id {
        Some(v) => if voted(store, req.id, v) { Some(tally(store, req.id)) } else { None },
        None => None,
    };
    Ok(EntryDetail { mandela, votes })
}

pub struct CreateReq {
    pub entry: NewEntry,
    pub categories: Vec<i16>,
}

/// The category rows that entry `eid` gets for `numbers`, under the ids
/// that follow `eid`.
pub open spec fn category_rows(eid: i32, numbers: Seq<i16>) -> Seq<Category> {
    Seq::new(numbers.len(), |k: int| Category { id: (eid + 1 + k) as i32, mandela_id: eid, number: numbers[k] })
}

/// `r` and `new` are what creating entry `req` on `old` at `now` gives.
pub open spec fn create_post(old: &Store, new: &Store, req: CreateReq, now: i64, r: Result<i32, ApiError>) -> bool {
    &&& (user_with(old.users@, req.entry.user_id).is_none()
        ==> r == Err::<i32, ApiError>(ApiError::MissingReference) && *new == *old)
    &&& (user_with(old.users@, req.entry.user_id).is_some() && old.next_id + req.categories@.len() + 1
        >= i32::MAX ==> r == Err::<i32, ApiError>(ApiError::StoreFull) && *new == *old)
    &&& (user_with(old.users@, req.entry.user_id).is_some() && old.next_id + req.categories@.len() + 1
        < i32::MAX ==> r == Ok::<i32, ApiError>(old.next_id) && {
        &&& new.entries@ == old.entries@.push(entry_row(req.entry, old.next_id, now, now))
        &&& new.categories@ == old.categories@ + category_rows(old.next_id, req.categories@)
        &&& new.next_id == old.next_id + req.categories@.len() + 1
        &&& new.groups@ == old.groups@
        &&& new.users@ == old.users@
        &&& new.topics@ == old.topics@
        &&& new.comments@ == old.comments@
        &&& new.marks@ == old.marks@
        &&& new.votes@ == old.votes@
    })
}

/// Stores a new entry and its category numbers and returns the entry's id.
/// The owner must exist; the id sequence must have room for all the rows.
pub fn create(store: &mut Store, req: CreateReq, now: i64) -> (r: Result<i32, ApiError>)
    requires
        old(store).wf(),
    ensures
        final(store).wf(),
        create_post(old(store), final(store), req, now, r),
{
    if store.find_user(req.entry.user_id).is_none() {
        return Err(ApiError::MissingReference);
    }
    let n = req.categories.len();
    if n >= (i32::MAX - store.next_id) as usize || store.next_id as usize + n + 1 >= i32::MAX as usize {
        return Err(ApiError::StoreFull);
    }
    let numbers = req.categories;
    let id = match store.insert_entry(req.entry, now) {
        Ok(id) => id,
        Err(_) => return Err(ApiError::StoreFull),
    };
    let ghost mid = *store;
    let mut i: usize = 0;
    while i < numbers.len()
        invariant
            store.wf(),
            i <= numbers@.len(),
            n == numbers@.len(),
            id + n + 1 < i32::MAX,
            store.next_id == id + 1 + i,
            store.categories@ == mid.categories@ + category_rows(id, numbers@.take(i as int)),
            agree_except(&mid, store, Table::Categories),
        decreases numbers@.len() - i,
    {
        let ghost before = store.categories@;
        match store.insert_category(id, numbers[i]) {
            Ok(_) => {},
            Err(_) => {
                return Err(ApiError::StoreFull);
            },
        }
        proof {
            assert(category_rows(id, numbers@.take(i + 1)) =~= category_rows(id, numbers@.take(i as int)).push(
                Category { id: (id + 1 + i) as i32, mandela_id: id, number: numbers@[i as int] }));
        }
        i = i + 1;
    }
    assert(numbers@.take(i as int) =~= numbers@);
    Ok(id)
}

pub struct UpdateReq {
    pub id: i32,
    pub entry: NewEntry,
}

/// `r` and `new` are what entry update `req` on `old` at `now` gives.
pub open spec fn update_post(old: &Store, new: &Store, req: &UpdateReq, now: i64, r: Result<(), ApiError>) -> bool {
    &&& (user_with(old.users@, req.entry.user_id).is_none()
        ==> r == Err::<(), ApiError>(ApiError::MissingReference) && *new == *old)
    &&& (user_with(old.users@, req.entry.user_id).is_some() ==> r == Ok::<(), ApiError>(()) && {
        &&& new.next_id == old.next_id
        &&& agree_except(old, new, Table::Entries)
        &&& new.entries@.len() == old.entries@.len()
        &&& forall|k: int| 0 <= k < old.entries@.len() ==> #[trigger] new.entries@[k] == (
            if old.entries@[k].id == req.id {
                entry_row(req.entry, req.id, old.entries@[k].create_ts, now)
            } else {
                old.entries@[k]
            })
    })
}

/// Rewrites the entry with the given id; its owner must exist.
pub fn update(store: &mut Store, req: &UpdateReq, now: i64) -> (r: Result<(), ApiError>)
    requires
        old(store).wf(),
    ensures
        final(store).wf(),
        update_post(old(store), final(store), req, now, r),
{
    if store.find_user(req.entry.user_id).is_none() {
        return Err(ApiError::MissingReference);
    }
    store.update_entry(req.id, &req.entry, now);
    Ok(())
}

/// `r` and `new` are what deleting entries `ids` from `old` gives.
pub open spec fn delete_post(old: &Store, new: &Store, ids: &Vec<i32>, r: Result<(), ApiError>) -> bool {
    &&& (r is Ok)
    &&& (new.next_id == old.next_id)
    &&& (agree_except(old, new, Table::Entries))
    &&& (new.entries@ == entries_kept(old.entries@, ids@))
}

/// Removes the entries with the given ids.
pub fn delete(store: &mut Store, ids: &Vec<i32>) -> (r: Result<(), ApiError>)
    requires
        old(store).wf(),
    ensures
        final(store).wf(),
        delete_post(old(store), final(store), ids, r),
{
    store.delete_entries(ids);
    Ok(())
}

pub struct MarkReq {
    pub id: i32,
    pub user_id: i32,
}

/// `r` and `new` are what mark request `req` on `old` at `now` gives.
pub open spec fn mark_post(old: &Store, new: &Store, req: &MarkReq, now: i64, r: Result<(), ApiError>) -> bool {
    &&& ((entry_with(old.entries@, req.id).is_none() || user_with(old.users@, req.user_id).is_none())
        ==> r == Err::<(), ApiError>(ApiError::MissingReference) && *new == *old)
    &&& ((entry_with(old.entries@, req.id).is_some() && user_with(old.users@, req.user_id).is_some()
        && mark_ts_of(old.marks@, Some(req.user_id), req.id).is_some())
        ==> r == Ok::<(), ApiError>(()) && *new == *old)
    &&& ((entry_with(old.entries@, req.id).is_some() && user_with(old.users@, req.user_id).is_some()
        && mark_ts_of(old.marks@, Some(req.user_id), req.id).is_none()) ==> {
        &&& r is Ok <==> old.next_id < i32::MAX
        &&& r is Err ==> r == Err::<(), ApiError>(ApiError::StoreFull) && *new == *old
        &&& r is Ok ==> appended(old, new, Table::Marks, Ok(old.next_id))
            && new.marks@ == old.marks@.push(
                Mark { id: old.next_id, mandela_id: req.id, user_id: req.user_id, create_ts: now })
    })
}

/// Records that the user has seen the entry, unless they already marked it.
pub fn mark(store: &mut Store, req: &MarkReq, now: i64) -> (r: Result<(), ApiError>)
    requires
        old(store).wf(),
    ensures
        final(store).wf(),
        mark_post(old(store), final(store), req, now, r),
{
    if store.find_entry(req.id).is_none() || store.find_user(req.user_id).is_none() {
        return Err(ApiError::MissingReference);
    }
    if find_mark_ts(store, Some(req.user_id), req.id).is_some() {
        return Ok(());
    }
    match store.insert_mark(req.id, req.user_id, now) {
        Ok(_) => Ok(()),
        Err(_) => Err(ApiError::StoreFull),
    }
}

pub struct VoteReq {
    pub id: i32,
    pub user_id: i32,
    pub vote: i16,
}

/// `r` and `new` are what vote request `req` on `old` gives.
pub open spec fn vote_post(old: &Store, new: &Store, req: &VoteReq, r: Result<Vec<VoteCount>, ApiError>) -> bool {
    &&& ((entry_with(old.entries@, req.id).is_none() || user_with(old.users@, req.user_id).is_none())
        ==> r == Err::<Vec<VoteCount>, ApiError>(ApiError::MissingReference) && *new == *old)
    &&& ((entry_with(old.entries@, req.id).is_some() && user_with(old.users@, req.user_id).is_some()) ==> {
        &&& r is Ok <==> old.next_id < i32::MAX
        &&& r is Err ==> r == Err::<Vec<VoteCount>, ApiError>(ApiError::StoreFull) && *new == *old
        &&& r matches Ok(t) ==> appended(old, new, Table::Votes, Ok(old.next_id))
            && new.votes@ == old.votes@.push(
                Vote { id: old.next_id, mandela_id: req.id, user_id: req.user_id, vote: req.vote })
            && is_tally(t@, new.votes@, req.id)
    })
}

/// Records a vote, whether or not the user voted on the entry before, and
/// returns the entry's tally including it.
pub fn vote(store: &mut Store, req: &VoteReq) -> (r: Result<Vec<VoteCount>, ApiError>)
    requires
        old(store).wf(),
    ensures
        final(store).wf(),
        vote_post(old(store), final(store), req, r),
{
    if store.find_entry(req.id).is_none() || store.find_user(req.user_id).is_none() {
        return Err(ApiError::MissingReference);
    }
    match store.insert_vote(req.id, req.user_id, req.vote) {
        Ok(_) => Ok(tally(store, req.id)),
        Err(_) => Err(ApiError::StoreFull),
    }
}

/// Every row of an entry listing obeys its filter: with `Mine` the row's
/// owner is the viewer, with `Unseen` the viewer has no mark on it; and each
/// row's comment count is the number of comments on that entry.
pub proof fn lemma_listing_rows(st: &Store, viewer: Option<i32>, filter: Filter, t: Seq<Entry>)
    ensures
        forall|i: int| 0 <= i < listing(st, viewer, filter, t).len() ==> {
            let row = #[trigger] listing(st, viewer, filter, t)[i];
            &&& filter == Filter::Mine ==> viewer == Some(row.user_id)
            &&& filter == Filter::Unseen ==> row.mark_ts.is_none() && mark_ts_of(st.marks@, viewer, row.id).is_none()
            &&& row.comment_count == comment_count(st.comments@, row.id) as usize
            &&& row.mark_ts == mark_ts_of(st.marks@, viewer, row.id)
        },
    decreases t.len(),
{
    if t.len() > 0 {
        lemma_listing_rows(st, viewer, filter, t.drop_last());
        let rest = listing(st, viewer, filter, t.drop_last());
        if shown(st, viewer, filter, t.last()) {
            let l = listing(st, viewer, filter, t);
            assert(l == seq![row_of(st, viewer, t.last())] + rest);
            assert forall|i: int| 0 < i < l.len() implies #[trigger] l[i] == rest[i - 1] by {}
        }
    }
}

/// Every row that `get_all` returns obeys the filter (with `Mine` its owner
/// is the viewer; with `Unseen` the viewer has no mark on it) and carries
/// the number of comments on its entry.
pub proof fn lemma_get_all_rows(store: &Store, req: &GetAllReq, l: EntryList)
    requires
        req.offset >= 0,
        req.limit >= 0,
        spec_filter_of(req.filter).is_some(),
        is_listing(store, req, l),
    ensures
        forall|i: int| 0 <= i < l.mandels@.len() ==> {
            let row = #[trigger] l.mandels@[i];
            &&& req.filter == Some(2i8) ==> req.user_id == Some(row.user_id)
            &&& req.filter == Some(1i8) ==> row.mark_ts.is_none()
                && mark_ts_of(store.marks@, req.user_id, row.id).is_none()
            &&& row.comment_count == comment_count(store.comments@, row.id) as usize
            &&& row.mark_ts == mark_ts_of(store.marks@, req.user_id, row.id)
        },
{
    let f = spec_filter_of(req.filter).unwrap();
    let all = listing(store, req.user_id, f, store.entries@);
    lemma_listing_rows(store, req.user_id, f, store.entries@);
    let lo = if (req.offset as int) < all.len() { req.offset as int } else { all.len() as int };
    assert forall|i: int| 0 <= i < l.mandels@.len() implies #[trigger] l.mandels@[i] == all[lo + i] by {}
}

/// Listing twice with no write in between gives the same answer: the rows,
/// their comment counts and the counters depend on the store and the
/// request alone.
pub proof fn lemma_requery_same(store: &Store, req: &GetAllReq, l1: EntryList, l2: EntryList)
    requires
        is_listing(store, req, l1),
        is_listing(store, req, l2),
    ensures
        l1.mandels@ == l2.mandels@,
        forall|i: int| 0 <= i < l1.mandels@.len() ==> #[trigger] l1.mandels@[i].comment_count
            == l2.mandels@[i].comment_count,
        l1.total_count == l2.total_count,
        l1.new_count == l2.new_count,
        l1.mine_count == l2.mine_count,
{
}

/// With the `All` filter, which entries a listing shows does not depend on
/// the viewer: two viewers see rows for the same entries in the same order.
pub proof fn lemma_all_ignores_viewer(st: &Store, v1: Option<i32>, v2: Option<i32>, t: Seq<Entry>)
    ensures
        listing(st, v1, Filter::All, t).len() == listing(st, v2, Filter::All, t).len(),
        forall|i: int| 0 <= i < listing(st, v1, Filter::All, t).len() ==> #[trigger] listing(st, v1, Filter::All, t)[i].id
            == listing(st, v2, Filter::All, t)[i].id,
    decreases t.len(),
{
    if t.len() > 0 {
        lemma_all_ignores_viewer(st, v1, v2, t.drop_last());
        let r1 = listing(st, v1, Filter::All, t.drop_last());
        let r2 = listing(st, v2, Filter::All, t.drop_last());
        if shown(st, v1, Filter::All, t.last()) {
            let l1 = listing(st, v1, Filter::All, t);
            let l2 = listing(st, v2, Filter::All, t);
            assert forall|i: int| 0 < i < l1.len() implies #[trigger] l1[i] == r1[i - 1] && l2[i] == r2[i - 1] by {}
        }
    }
}

/// Votes of the same value by the same user on the same entry all count:
/// after two more of them, the tally's item for that value has grown by two.
pub proof fn lemma_repeated_votes(t: Seq<Vote>, a: Vote, b: Vote, r: Seq<VoteCount>)
    requires
        a.mandela_id == b.mandela_id,
        a.user_id == b.user_id,
        a.vote == b.vote,
        is_tally(r, t.push(a).push(b), a.mandela_id),
    ensures
        exists|i: int| 0 <= i < r.len() && r[i].vote == a.vote && r[i].count == vote_count(t, a.mandela_id, a.vote) + 2,
{
    let eid = a.mandela_id;
    assert(t.push(a).push(b).drop_last() == t.push(a));
    assert(t.push(a).drop_last() == t);
    assert(vote_count(t.push(a), eid, a.vote) == vote_count(t, eid, a.vote) + 1);
    assert(vote_count(t.push(a).push(b), eid, a.vote) == vote_count(t, eid, a.vote) + 2);
    let i = choose|i: int| 0 <= i < r.len() && r[i].vote == a.vote;
    assert(r[i].count == vote_count(t.push(a).push(b), eid, r[i].vote));
}

/// Once a mark request for an existing entry and user has succeeded, the
/// user has a mark on the entry, and their `Unseen` listing leaves it out.
pub proof fn lemma_marked_entry_hidden(old: &Store, new: &Store, req: &MarkReq, now: i64)
    requires
        mark_post(old, new, req, now, Ok(())),
    ensures
        mark_ts_of(new.marks@, Some(req.user_id), req.id).is_some(),
        forall|i: int| 0 <= i < listing(new, Some(req.user_id), Filter::Unseen, new.entries@).len()
            ==> (#[trigger] listing(new, Some(req.user_id), Filter::Unseen, new.entries@)[i]).id != req.id,
{
    lemma_listing_rows(new, Some(req.user_id), Filter::Unseen, new.entries@);
}

} // verus!
