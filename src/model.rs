//! The relational store: one table per entity, rows kept in insertion order
//! with ids drawn from a single increasing sequence.

use vstd::prelude::*;

use crate::text::{copy_opt, str_eq};

verus! {

/// A user group (a role), looked up by its unique short code.
pub struct Group {
    pub id: i32,
    pub code: String,
}

pub struct User {
    pub id: i32,
    pub name: Option<String>,
    pub group_id: i32,
    pub token: String,
    pub create_ts: i64,
    pub update_ts: i64,
}

/// The fields of a user that its creator writes.
pub struct NewUser {
    pub name: Option<String>,
    pub group_id: i32,
}

pub struct Topic {
    pub id: i32,
    pub title: String,
    pub description: String,
    pub create_ts: i64,
    pub update_ts: i64,
    pub user_id: i32,
}

/// An entry; `images`, `videos` and `links` hold JSON text that the store
/// keeps as given.
pub struct Entry {
    pub id: i32,
    pub title_mode: i32,
    pub title: String,
    pub what: String,
    pub before: String,
    pub after: String,
    pub description: String,
    pub images: String,
    pub videos: String,
    pub links: String,
    pub user_id: i32,
    pub create_ts: i64,
    pub update_ts: i64,
}

/// The fields of an entry that its author writes.
pub struct NewEntry {
    pub title_mode: i32,
    pub title: String,
    pub what: String,
    pub before: String,
    pub after: String,
    pub description: String,
    pub images: String,
    pub videos: String,
    pub links: String,
    pub user_id: i32,
}

/// The row that `n` becomes under `id`, created at `create_ts` and last
/// written at `update_ts`.
pub open spec fn entry_row(n: NewEntry, id: i32, create_ts: i64, update_ts: i64) -> Entry {
    Entry {
        id,
        title_mode: n.title_mode,
        title: n.title,
        what: n.what,
        before: n.before,
        after: n.after,
        description: n.description,
        images: n.images,
        videos: n.videos,
        links: n.links,
        user_id: n.user_id,
        create_ts,
        update_ts,
    }
}

pub struct Comment {
    pub id: i32,
    pub mandela_id: i32,
    pub user_id: i32,
    pub message: String,
    pub create_ts: i64,
    pub update_ts: i64,
}

/// A user's acknowledgment that they have seen an entry.
pub struct Mark {
    pub id: i32,
    pub mandela_id: i32,
    pub user_id: i32,
    pub create_ts: i64,
}

pub struct Vote {
    pub id: i32,
    pub mandela_id: i32,
    pub user_id: i32,
    pub vote: i16,
}

/// A category number attached to an entry.
pub struct Category {
    pub id: i32,
    pub mandela_id: i32,
    pub number: i16,
}

/// Why the store refused a write.
#[derive(PartialEq, Eq, Structural, Clone, Copy, Debug)]
pub enum StoreError {
    /// A referenced row does not exist.
    MissingReference,
    /// The id sequence is used up.
    Exhausted,
}

/// The tables. The invariant `wf` keeps ids ordered and every entry's
/// owner and every user's group present. Comments, marks and votes are
/// checked against their entry and user when written, but deleting an
/// entry leaves them in place: counts over them (a viewer's marks in a
/// listing's `new_count`) may include rows of entries that are gone.
pub struct Store {
    pub groups: Vec<Group>,
    pub users: Vec<User>,
    pub topics: Vec<Topic>,
    pub entries: Vec<Entry>,
    pub comments: Vec<Comment>,
    pub marks: Vec<Mark>,
    pub votes: Vec<Vote>,
    pub categories: Vec<Category>,
    /// The id the next inserted row receives.
    pub next_id: i32,
}

/// Ids of `rows` are positive, below `next`, strictly increasing in table
/// order, and there are fewer rows than `next`.
pub open spec fn ids_ok(ids: Seq<i32>, next: i32) -> bool {
    &&& ids.len() < next
    &&& forall|i: int| 0 <= i < ids.len() ==> 0 < #[trigger] ids[i] < next
    &&& forall|i: int, j: int| 0 <= i < j < ids.len() ==> ids[i] < ids[j]
}

pub open spec fn group_ids(t: Seq<Group>) -> Seq<i32> {
    t.map_values(|r: Group| r.id)
}

pub open spec fn user_ids(t: Seq<User>) -> Seq<i32> {
    t.map_values(|r: User| r.id)
}

pub open spec fn topic_ids(t: Seq<Topic>) -> Seq<i32> {
    t.map_values(|r: Topic| r.id)
}

pub open spec fn entry_ids(t: Seq<Entry>) -> Seq<i32> {
    t.map_values(|r: Entry| r.id)
}

pub open spec fn comment_ids(t: Seq<Comment>) -> Seq<i32> {
    t.map_values(|r: Comment| r.id)
}

pub open spec fn mark_ids(t: Seq<Mark>) -> Seq<i32> {
    t.map_values(|r: Mark| r.id)
}

pub open spec fn vote_ids(t: Seq<Vote>) -> Seq<i32> {
    t.map_values(|r: Vote| r.id)
}

pub open spec fn category_ids(t: Seq<Category>) -> Seq<i32> {
    t.map_values(|r: Category| r.id)
}

/// The tables of a store.
#[derive(PartialEq, Eq, Structural, Clone, Copy, Debug)]
pub enum Table {
    Groups,
    Users,
    Topics,
    Entries,
    Comments,
    Marks,
    Votes,
    Categories,
}

/// `a` and `b` hold the same rows in every table but `t`.
pub open spec fn agree_except(a: &Store, b: &Store, t: Table) -> bool {
    &&& (t != Table::Groups ==> a.groups@ == b.groups@)
    &&& (t != Table::Users ==> a.users@ == b.users@)
    &&& (t != Table::Topics ==> a.topics@ == b.topics@)
    &&& (t != Table::Entries ==> a.entries@ == b.entries@)
    &&& (t != Table::Comments ==> a.comments@ == b.comments@)
    &&& (t != Table::Marks ==> a.marks@ == b.marks@)
    &&& (t != Table::Votes ==> a.votes@ == b.votes@)
    &&& (t != Table::Categories ==> a.categories@ == b.categories@)
}

/// `new` is `old` after a row was appended to table `t` under the id that
/// `r` reports, or `old` unchanged when the id sequence was used up.
pub open spec fn appended(old: &Store, new: &Store, t: Table, r: Result<i32, StoreError>) -> bool {
    match r {
        Ok(id) => {
            &&& id == old.next_id
            &&& new.next_id == id + 1
            &&& agree_except(old, new, t)
        },
        Err(e) => {
            &&& e == StoreError::Exhausted
            &&& old.next_id == i32::MAX
            &&& *new == *old
        },
    }
}

/// The rows of `t`, in order, whose id is not in `ids`.
pub open spec fn entries_kept(t: Seq<Entry>, ids: Seq<i32>) -> Seq<Entry>
    decreases t.len(),
{
    if t.len() == 0 {
        t
    } else if ids.contains(t.last().id) {
        entries_kept(t.drop_last(), ids)
    } else {
        entries_kept(t.drop_last(), ids).push(t.last())
    }
}

/// The rows of `t`, in order, whose id is not in `ids`.
pub open spec fn topics_kept(t: Seq<Topic>, ids: Seq<i32>) -> Seq<Topic>
    decreases t.len(),
{
    if t.len() == 0 {
        t
    } else if ids.contains(t.last().id) {
        topics_kept(t.drop_last(), ids)
    } else {
        topics_kept(t.drop_last(), ids).push(t.last())
    }
}

/// The last user row with the given id.
pub open spec fn user_with(t: Seq<User>, id: i32) -> Option<User>
    decreases t.len(),
{
    if t.len() == 0 {
        None
    } else if t.last().id == id {
        Some(t.last())
    } else {
        user_with(t.drop_last(), id)
    }
}

/// The last group row with the given id.
pub open spec fn group_with(t: Seq<Group>, id: i32) -> Option<Group>
    decreases t.len(),
{
    if t.len() == 0 {
        None
    } else if t.last().id == id {
        Some(t.last())
    } else {
        group_with(t.drop_last(), id)
    }
}

/// The last group row with the given code.
pub open spec fn group_coded(t: Seq<Group>, code: Seq<char>) -> Option<Group>
    decreases t.len(),
{
    if t.len() == 0 {
        None
    } else if t.last().code@ == code {
        Some(t.last())
    } else {
        group_coded(t.drop_last(), code)
    }
}

/// The last entry row with the given id.
pub open spec fn entry_with(t: Seq<Entry>, id: i32) -> Option<Entry>
    decreases t.len(),
{
    if t.len() == 0 {
        None
    } else if t.last().id == id {
        Some(t.last())
    } else {
        entry_with(t.drop_last(), id)
    }
}

/// The last topic row with the given id.
pub open spec fn topic_with(t: Seq<Topic>, id: i32) -> Option<Topic>
    decreases t.len(),
{
    if t.len() == 0 {
        None
    } else if t.last().id == id {
        Some(t.last())
    } else {
        topic_with(t.drop_last(), id)
    }
}

/// The last user row holding the given token.
pub open spec fn user_holding(t: Seq<User>, token: Seq<char>) -> Option<User>
    decreases t.len(),
{
    if t.len() == 0 {
        None
    } else if t.last().token@ == token {
        Some(t.last())
    } else {
        user_holding(t.drop_last(), token)
    }
}

/// A user row at some index makes a lookup by its id succeed.
pub proof fn lemma_user_at(t: Seq<User>, k: int)
    requires
        0 <= k < t.len(),
    ensures
        user_with(t, t[k].id).is_some(),
    decreases t.len(),
{
    if k < t.len() - 1 {
        assert(t.drop_last()[k] == t[k]);
        lemma_user_at(t.drop_last(), k);
    }
}

/// A group row at some index makes a lookup by its id succeed.
pub proof fn lemma_group_at(t: Seq<Group>, k: int)
    requires
        0 <= k < t.len(),
    ensures
        group_with(t, t[k].id).is_some(),
    decreases t.len(),
{
    if k < t.len() - 1 {
        assert(t.drop_last()[k] == t[k]);
        lemma_group_at(t.drop_last(), k);
    }
}

/// Appending a user keeps every lookup that succeeded succeeding.
pub proof fn lemma_user_push(t: Seq<User>, x: User, id: i32)
    ensures
        user_with(t, id).is_some() ==> user_with(t.push(x), id).is_some(),
{
    assert(t.push(x).drop_last() =~= t);
}

/// Appending a group keeps every lookup that succeeded succeeding.
pub proof fn lemma_group_push(t: Seq<Group>, x: Group, id: i32)
    ensures
        group_with(t, id).is_some() ==> group_with(t.push(x), id).is_some(),
{
    assert(t.push(x).drop_last() =~= t);
}

/// Two user tables with the same ids at each index find the same ids.
pub proof fn lemma_user_ids_same(a: Seq<User>, b: Seq<User>, id: i32)
    requires
        a.len() == b.len(),
        forall|k: int| 0 <= k < a.len() ==> #[trigger] a[k].id == b[k].id,
    ensures
        user_with(a, id).is_some() == user_with(b, id).is_some(),
    decreases a.len(),
{
    if a.len() > 0 {
        lemma_user_ids_same(a.drop_last(), b.drop_last(), id);
    }
}

pub proof fn lemma_take_succ<A>(s: Seq<A>, i: int)
    requires
        0 <= i < s.len(),
    ensures
        s.take(i + 1).drop_last() == s.take(i),
        s.take(i + 1).last() == s[i],
        s.take(i + 1).len() == i + 1,
{
    assert(s.take(i + 1).drop_last() =~= s.take(i));
}

/// Whether `id` is one of `ids`.
pub fn contains_id(ids: &Vec<i32>, id: i32) -> (r: bool)
    ensures
        r == ids@.contains(id),
{
    let mut i: usize = 0;
    while i < ids.len()
        invariant
            i <= ids@.len(),
            forall|k: int| 0 <= k < i ==> ids@[k] != id,
        decreases ids@.len() - i,
    {
        if ids[i] == id {
            return true;
        }
        i = i + 1;
    }
    false
}

impl Entry {
    /// A copy of this row.
    pub fn copy(&self) -> (r: Entry)
        ensures
            r == *self,
    {
        Entry {
            id: self.id,
            title_mode: self.title_mode,
            title: self.title.clone(),
            what: self.what.clone(),
            before: self.before.clone(),
            after: self.after.clone(),
            description: self.description.clone(),
            images: self.images.clone(),
            videos: self.videos.clone(),
            links: self.links.clone(),
            user_id: self.user_id,
            create_ts: self.create_ts,
            update_ts: self.update_ts,
        }
    }
}

impl Topic {
    /// A copy of this row.
    pub fn copy(&self) -> (r: Topic)
        ensures
            r == *self,
    {
        Topic {
            id: self.id,
            title: self.title.clone(),
            description: self.description.clone(),
            create_ts: self.create_ts,
            update_ts: self.update_ts,
            user_id: self.user_id,
        }
    }
}

impl Store {
    pub open spec fn wf(&self) -> bool {
        &&& 0 < self.next_id
        &&& ids_ok(group_ids(self.groups@), self.next_id)
        &&& ids_ok(user_ids(self.users@), self.next_id)
        &&& ids_ok(topic_ids(self.topics@), self.next_id)
        &&& ids_ok(entry_ids(self.entries@), self.next_id)
        &&& ids_ok(comment_ids(self.comments@), self.next_id)
        &&& ids_ok(mark_ids(self.marks@), self.next_id)
        &&& ids_ok(vote_ids(self.votes@), self.next_id)
        &&& ids_ok(category_ids(self.categories@), self.next_id)
        &&& forall|k: int| 0 <= k < self.entries@.len()
            ==> user_with(self.users@, #[trigger] self.entries@[k].user_id).is_some()
        &&& forall|k: int| 0 <= k < self.users@.len()
            ==> group_with(self.groups@, #[trigger] self.users@[k].group_id).is_some()
    }

    /// An empty store.
    pub fn new() -> (r: Store)
        ensures
            r.wf(),
            r.next_id == 1,
            r.groups@.len() == 0,
            r.users@.len() == 0,
            r.topics@.len() == 0,
            r.entries@.len() == 0,
            r.comments@.len() == 0,
            r.marks@.len() == 0,
            r.votes@.len() == 0,
            r.categories@.len() == 0,
    {
        let r = Store {
            groups: Vec::new(),
            users: Vec::new(),
            topics: Vec::new(),
            entries: Vec::new(),
            comments: Vec::new(),
            marks: Vec::new(),
            votes: Vec::new(),
            categories: Vec::new(),
            next_id: 1,
        };
        proof {
            assert(group_ids(r.groups@) =~= Seq::empty());
            assert(user_ids(r.users@) =~= Seq::empty());
            assert(topic_ids(r.topics@) =~= Seq::empty());
            assert(entry_ids(r.entries@) =~= Seq::empty());
            assert(comment_ids(r.comments@) =~= Seq::empty());
            assert(mark_ids(r.marks@) =~= Seq::empty());
            assert(vote_ids(r.votes@) =~= Seq::empty());
            assert(category_ids(r.categories@) =~= Seq::empty());
        }
        r
    }

    /// Index of the last user with the given id.
    pub fn find_user(&self, id: i32) -> (r: Option<usize>)
        ensures
            match r {
                Some(i) => i < self.users@.len() && user_with(self.users@, id) == Some(self.users@[i as int]),
                None => user_with(self.users@, id).is_none(),
            },
    {
        let mut r: Option<usize> = None;
        let mut i: usize = 0;
        while i < self.users.len()
            invariant
                i <= self.users@.len(),
                match r {
                    Some(k) => k < i && user_with(self.users@.take(i as int), id) == Some(self.users@[k as int]),
                    None => user_with(self.users@.take(i as int), id).is_none(),
                },
            decreases self.users@.len() - i,
        {
            proof { lemma_take_succ(self.users@, i as int); }
            if self.users[i].id == id {
                r = Some(i);
            }
            i = i + 1;
        }
        assert(self.users@.take(i as int) =~= self.users@);
        r
    }

    /// Index of the last user holding the given token.
    pub fn find_user_by_token(&self, token: &str) -> (r: Option<usize>)
        ensures
            match r {
                Some(i) => i < self.users@.len() && user_holding(self.users@, token@) == Some(self.users@[i as int]),
                None => user_holding(self.users@, token@).is_none(),
            },
    {
        let mut r: Option<usize> = None;
        let mut i: usize = 0;
        while i < self.users.len()
            invariant
                i <= self.users@.len(),
                match r {
                    Some(k) => k < i && user_holding(self.users@.take(i as int), token@) == Some(self.users@[k as int]),
                    None => user_holding(self.users@.take(i as int), token@).is_none(),
                },
            decreases self.users@.len() - i,
        {
            proof { lemma_take_succ(self.users@, i as int); }
            if str_eq(self.users[i].token.as_str(), token) {
                r = Some(i);
            }
            i = i + 1;
        }
        assert(self.users@.take(i as int) =~= self.users@);
        r
    }

    /// Index of the last group with the given id.
    pub fn find_group(&self, id: i32) -> (r: Option<usize>)
        ensures
            match r {
                Some(i) => i < self.groups@.len() && group_with(self.groups@, id) == Some(self.groups@[i as int]),
                None => group_with(self.groups@, id).is_none(),
            },
    {
        let mut r: Option<usize> = None;
        let mut i: usize = 0;
        while i < self.groups.len()
            invariant
                i <= self.groups@.len(),
                match r {
                    Some(k) => k < i && group_with(self.groups@.take(i as int), id) == Some(self.groups@[k as int]),
                    None => group_with(self.groups@.take(i as int), id).is_none(),
                },
            decreases self.groups@.len() - i,
        {
            proof { lemma_take_succ(self.groups@, i as int); }
            if self.groups[i].id == id {
                r = Some(i);
            }
            i = i + 1;
        }
        assert(self.groups@.take(i as int) =~= self.groups@);
        r
    }

    /// Index of the last group with the given code.
    pub fn find_group_by_code(&self, code: &str) -> (r: Option<usize>)
        ensures
            match r {
                Some(i) => i < self.groups@.len() && group_coded(self.groups@, code@) == Some(self.groups@[i as int]),
                None => group_coded(self.groups@, code@).is_none(),
            },
    {
        let mut r: Option<usize> = None;
        let mut i: usize = 0;
        while i < self.groups.len()
            invariant
                i <= self.groups@.len(),
                match r {
                    Some(k) => k < i && group_coded(self.groups@.take(i as int), code@) == Some(self.groups@[k as int]),
                    None => group_coded(self.groups@.take(i as int), code@).is_none(),
                },
            decreases self.groups@.len() - i,
        {
            proof { lemma_take_succ(self.groups@, i as int); }
            if str_eq(self.groups[i].code.as_str(), code) {
                r = Some(i);
            }
            i = i + 1;
        }
        assert(self.groups@.take(i as int) =~= self.groups@);
        r
    }

    /// Index of the last topic with the given id.
    pub fn find_topic(&self, id: i32) -> (r: Option<usize>)
        ensures
            match r {
                Some(i) => i < self.topics@.len() && topic_with(self.topics@, id) == Some(self.topics@[i as int]),
                None => topic_with(self.topics@, id).is_none(),
            },
    {
        let mut r: Option<usize> = None;
        let mut i: usize = 0;
        while i < self.topics.len()
            invariant
                i <= self.topics@.len(),
                match r {
                    Some(k) => k < i && topic_with(self.topics@.take(i as int), id) == Some(self.topics@[k as int]),
                    None => topic_with(self.topics@.take(i as int), id).is_none(),
                },
            decreases self.topics@.len() - i,
        {
            proof { lemma_take_succ(self.topics@, i as int); }
            if self.topics[i].id == id {
                r = Some(i);
            }
            i = i + 1;
        }
        assert(self.topics@.take(i as int) =~= self.topics@);
        r
    }

    /// Index of the last entry with the given id.
    pub fn find_entry(&self, id: i32) -> (r: Option<usize>)
        ensures
            match r {
                Some(i) => i < self.entries@.len() && entry_with(self.entries@, id) == Some(self.entries@[i as int]),
                None => entry_with(self.entries@, id).is_none(),
            },
    {
        let mut r: Option<usize> = None;
        let mut i: usize = 0;
        while i < self.entries.len()
            invariant
                i <= self.entries@.len(),
                match r {
                    Some(k) => k < i && entry_with(self.entries@.take(i as int), id) == Some(self.entries@[k as int]),
                    None => entry_with(self.entries@.take(i as int), id).is_none(),
                },
            decreases self.entries@.len() - i,
        {
            proof { lemma_take_succ(self.entries@, i as int); }
            if self.entries[i].id == id {
                r = Some(i);
            }
            i = i + 1;
        }
        assert(self.entries@.take(i as int) =~= self.entries@);
        r
    }

    /// Appends an user row under the next id.
    pub fn insert_user(&mut self, n: NewUser, token: String, now: i64) -> (r: Result<i32, StoreError>)
        requires
            old(self).wf(),
            group_with(old(self).groups@, n.group_id).is_some(),
        ensures
            final(self).wf(),
            appended(old(self), final(self), Table::Users, r),
            r matches Ok(id) ==> final(self).users@ == old(self).users@.push(
                User { id, name: n.name, group_id: n.group_id, token, create_ts: now, update_ts: now }),
    {
        let id = match self.take_id() {
            Ok(id) => id,
            Err(e) => return Err(e),
        };
        let ghost before = self.users@;
        self.users.push(User { id, name: n.name, group_id: n.group_id, token, create_ts: now, update_ts: now });
        proof {
            assert forall|k: int| 0 <= k < self.entries@.len() implies user_with(
                self.users@,
                #[trigger] self.entries@[k].user_id,
            ).is_some() by {
                lemma_user_push(before, self.users@.last(), self.entries@[k].user_id);
                assert(before.push(self.users@.last()) == self.users@);
            }
            assert(user_ids(self.users@) =~= user_ids(old(self).users@).push(id));
        }
        Ok(id)
    }

    /// Appends a topic row under the next id.
    pub fn insert_topic(&mut self, title: String, description: String, user_id: i32, now: i64) -> (r: Result<i32, StoreError>)
        requires
            old(self).wf(),
        ensures
            final(self).wf(),
            appended(old(self), final(self), Table::Topics, r),
            r matches Ok(id) ==> final(self).topics@ == old(self).topics@.push(Topic { id, title, description, create_ts: now, update_ts: now, user_id }),
    {
        let id = match self.take_id() {
            Ok(id) => id,
            Err(e) => return Err(e),
        };
        self.topics.push(Topic { id, title, description, create_ts: now, update_ts: now, user_id });
        proof {
            assert(topic_ids(self.topics@) =~= topic_ids(old(self).topics@).push(id));
        }
        Ok(id)
    }

    /// Appends a comment row under the next id.
    pub fn insert_comment(&mut self, mandela_id: i32, user_id: i32, message: String, now: i64) -> (r: Result<i32, StoreError>)
        requires
            old(self).wf(),
        ensures
            final(self).wf(),
            appended(old(self), final(self), Table::Comments, r),
            r matches Ok(id) ==> final(self).comments@ == old(self).comments@.push(Comment { id, mandela_id, user_id, message, create_ts: now, update_ts: now }),
    {
        let id = match self.take_id() {
            Ok(id) => id,
            Err(e) => return Err(e),
        };
        self.comments.push(Comment { id, mandela_id, user_id, message, create_ts: now, update_ts: now });
        proof {
            assert(comment_ids(self.comments@) =~= comment_ids(old(self).comments@).push(id));
        }
        Ok(id)
    }

    /// Appends a mark row under the next id.
    pub fn insert_mark(&mut self, mandela_id: i32, user_id: i32, now: i64) -> (r: Result<i32, StoreError>)
        requires
            old(self).wf(),
        ensures
            final(self).wf(),
            appended(old(self), final(self), Table::Marks, r),
            r matches Ok(id) ==> final(self).marks@ == old(self).marks@.push(Mark { id, mandela_id, user_id, create_ts: now }),
    {
        let id = match self.take_id() {
            Ok(id) => id,
            Err(e) => return Err(e),
        };
        self.marks.push(Mark { id, mandela_id, user_id, create_ts: now });
        proof {
            assert(mark_ids(self.marks@) =~= mark_ids(old(self).marks@).push(id));
        }
        Ok(id)
    }

    /// Appends a vote row under the next id.
    pub fn insert_vote(&mut self, mandela_id: i32, user_id: i32, vote: i16) -> (r: Result<i32, StoreError>)
        requires
            old(self).wf(),
        ensures
            final(self).wf(),
            appended(old(self), final(self), Table::Votes, r),
            r matches Ok(id) ==> final(self).votes@ == old(self).votes@.push(Vote { id, mandela_id, user_id, vote }),
    {
        let id = match self.take_id() {
            Ok(id) => id,
            Err(e) => return Err(e),
        };
        self.votes.push(Vote { id, mandela_id, user_id, vote });
        proof {
            assert(vote_ids(self.votes@) =~= vote_ids(old(self).votes@).push(id));
        }
        Ok(id)
    }

    /// Appends a category row under the next id.
    pub fn insert_category(&mut self, mandela_id: i32, number: i16) -> (r: Result<i32, StoreError>)
        requires
            old(self).wf(),
        ensures
            final(self).wf(),
            appended(old(self), final(self), Table::Categories, r),
            r matches Ok(id) ==> final(self).categories@ == old(self).categories@.push(Category { id, mandela_id, number }),
    {
        let id = match self.take_id() {
            Ok(id) => id,
            Err(e) => return Err(e),
        };
        self.categories.push(Category { id, mandela_id, number });
        proof {
            assert(category_ids(self.categories@) =~= category_ids(old(self).categories@).push(id));
        }
        Ok(id)
    }

    /// Appends an entry row under the next id.
    pub fn insert_entry(&mut self, n: NewEntry, now: i64) -> (r: Result<i32, StoreError>)
        requires
            old(self).wf(),
            user_with(old(self).users@, n.user_id).is_some(),
        ensures
            final(self).wf(),
            appended(old(self), final(self), Table::Entries, r),
            r matches Ok(id) ==> final(self).entries@ == old(self).entries@.push(entry_row(n, id, now, now)),
    {
        let id = match self.take_id() {
            Ok(id) => id,
            Err(e) => return Err(e),
        };
        let row = Entry {
            id,
            title_mode: n.title_mode,
            title: n.title,
            what: n.what,
            before: n.before,
            after: n.after,
            description: n.description,
            images: n.images,
            videos: n.videos,
            links: n.links,
            user_id: n.user_id,
            create_ts: now,
            update_ts: now,
        };
        self.entries.push(row);
        proof {
            assert(entry_ids(self.entries@) =~= entry_ids(old(self).entries@).push(id));
        }
        Ok(id)
    }

    /// Rewrites every entry with the given id from `n`, keeping its id and
    /// creation time and setting its update time to `now`.
    pub fn update_entry(&mut self, id: i32, n: &NewEntry, now: i64)
        requires
            old(self).wf(),
            user_with(old(self).users@, n.user_id).is_some(),
        ensures
            final(self).wf(),
            final(self).next_id == old(self).next_id,
            agree_except(old(self), final(self), Table::Entries),
            final(self).entries@.len() == old(self).entries@.len(),
            forall|k: int| 0 <= k < old(self).entries@.len() ==> #[trigger] final(self).entries@[k] == (
                if old(self).entries@[k].id == id {
                    entry_row(*n, id, old(self).entries@[k].create_ts, now)
                } else {
                    old(self).entries@[k]
                }),
    {
        let ghost start = self.entries@;
        let mut i: usize = 0;
        while i < self.entries.len()
            invariant
                i <= self.entries@.len(),
                self.entries@.len() == start.len(),
                self.next_id == old(self).next_id,
                agree_except(old(self), self, Table::Entries),
                start == old(self).entries@,
                forall|k: int| 0 <= k < start.len() ==> #[trigger] self.entries@[k] == (
                    if k < i && start[k].id == id {
                        entry_row(*n, id, start[k].create_ts, now)
                    } else {
                        start[k]
                    }),
            decreases start.len() - i,
        {
            if self.entries[i].id == id {
                let row = Entry {
                    id,
                    title_mode: n.title_mode,
                    title: n.title.clone(),
                    what: n.what.clone(),
                    before: n.before.clone(),
                    after: n.after.clone(),
                    description: n.description.clone(),
                    images: n.images.clone(),
                    videos: n.videos.clone(),
                    links: n.links.clone(),
                    user_id: n.user_id,
                    create_ts: self.entries[i].create_ts,
                    update_ts: now,
                };
                self.entries.set(i, row);
            }
            i = i + 1;
        }
        proof {
            assert(entry_ids(self.entries@) =~= entry_ids(start));
        }
    }

    /// Sets the name, group and update time of every user with the given id.
    pub fn update_user(&mut self, id: i32, name: Option<String>, group_id: i32, now: i64)
        requires
            old(self).wf(),
            group_with(old(self).groups@, group_id).is_some(),
        ensures
            final(self).wf(),
            final(self).next_id == old(self).next_id,
            agree_except(old(self), final(self), Table::Users),
            final(self).users@.len() == old(self).users@.len(),
            forall|k: int| 0 <= k < old(self).users@.len() ==> #[trigger] final(self).users@[k] == (
                if old(self).users@[k].id == id {
                    User { name, group_id, update_ts: now, ..old(self).users@[k] }
                } else {
                    old(self).users@[k]
                }),
    {
        let ghost start = self.users@;
        let mut i: usize = 0;
        while i < self.users.len()
            invariant
                i <= self.users@.len(),
                self.users@.len() == start.len(),
                self.next_id == old(self).next_id,
                agree_except(old(self), self, Table::Users),
                start == old(self).users@,
                forall|k: int| 0 <= k < start.len() ==> #[trigger] self.users@[k] == (
                    if k < i && start[k].id == id {
                        User { name, group_id, update_ts: now, ..start[k] }
                    } else {
                        start[k]
                    }),
            decreases start.len() - i,
        {
            if self.users[i].id == id {
                let row = User {
                    id,
                    name: copy_opt(&name),
                    group_id,
                    token: self.users[i].token.clone(),
                    create_ts: self.users[i].create_ts,
                    update_ts: now,
                };
                self.users.set(i, row);
            }
            i = i + 1;
        }
        proof {
            assert(user_ids(self.users@) =~= user_ids(start));
            assert forall|k: int| 0 <= k < self.entries@.len() implies user_with(
                self.users@,
                #[trigger] self.entries@[k].user_id,
            ).is_some() by {
                lemma_user_ids_same(start, self.users@, self.entries@[k].user_id);
            }
        }
    }

    /// Sets the token of every user with the given id.
    pub fn set_token(&mut self, id: i32, token: &String)
        requires
            old(self).wf(),
        ensures
            final(self).wf(),
            final(self).next_id == old(self).next_id,
            agree_except(old(self), final(self), Table::Users),
            final(self).users@.len() == old(self).users@.len(),
            forall|k: int| 0 <= k < old(self).users@.len() ==> #[trigger] final(self).users@[k] == (
                if old(self).users@[k].id == id {
                    User { token: *token, ..old(self).users@[k] }
                } else {
                    old(self).users@[k]
                }),
    {
        let ghost start = self.users@;
        let mut i: usize = 0;
        while i < self.users.len()
            invariant
                i <= self.users@.len(),
                self.users@.len() == start.len(),
                self.next_id == old(self).next_id,
                agree_except(old(self), self, Table::Users),
                start == old(self).users@,
                forall|k: int| 0 <= k < start.len() ==> #[trigger] self.users@[k] == (
                    if k < i && start[k].id == id {
                        User { token: *token, ..start[k] }
                    } else {
                        start[k]
                    }),
            decreases start.len() - i,
        {
            if self.users[i].id == id {
                let row = User {
                    id,
                    name: copy_opt(&self.users[i].name),
                    group_id: self.users[i].group_id,
                    token: token.clone(),
                    create_ts: self.users[i].create_ts,
                    update_ts: self.users[i].update_ts,
                };
                self.users.set(i, row);
            }
            i = i + 1;
        }
        proof {
            assert(user_ids(self.users@) =~= user_ids(start));
            assert forall|k: int| 0 <= k < self.entries@.len() implies user_with(
                self.users@,
                #[trigger] self.entries@[k].user_id,
            ).is_some() by {
                lemma_user_ids_same(start, self.users@, self.entries@[k].user_id);
            }
        }
    }

    /// Sets the message of every comment with the given id.
    pub fn update_comment(&mut self, id: i32, message: &String)
        requires
            old(self).wf(),
        ensures
            final(self).wf(),
            final(self).next_id == old(self).next_id,
            agree_except(old(self), final(self), Table::Comments),
            final(self).comments@.len() == old(self).comments@.len(),
            forall|k: int| 0 <= k < old(self).comments@.len() ==> #[trigger] final(self).comments@[k] == (
                if old(self).comments@[k].id == id {
                    Comment { message: *message, ..old(self).comments@[k] }
                } else {
                    old(self).comments@[k]
                }),
    {
        let ghost start = self.comments@;
        let mut i: usize = 0;
        while i < self.comments.len()
            invariant
                i <= self.comments@.len(),
                self.comments@.len() == start.len(),
                self.next_id == old(self).next_id,
                agree_except(old(self), self, Table::Comments),
                start == old(self).comments@,
                forall|k: int| 0 <= k < start.len() ==> #[trigger] self.comments@[k] == (
                    if k < i && start[k].id == id {
                        Comment { message: *message, ..start[k] }
                    } else {
                        start[k]
                    }),
            decreases start.len() - i,
        {
            if self.comments[i].id == id {
                let row = Comment {
                    id,
                    mandela_id: self.comments[i].mandela_id,
                    user_id: self.comments[i].user_id,
                    message: message.clone(),
                    create_ts: self.comments[i].create_ts,
                    update_ts: self.comments[i].update_ts,
                };
                self.comments.set(i, row);
            }
            i = i + 1;
        }
        proof {
            assert(comment_ids(self.comments@) =~= comment_ids(start));
        }
    }

    /// Removes every entry row whose id is in `ids`; the comments, marks,
    /// votes and categories that refer to them stay.
    pub fn delete_entries(&mut self, ids: &Vec<i32>)
        requires
            old(self).wf(),
        ensures
            final(self).wf(),
            final(self).next_id == old(self).next_id,
            agree_except(old(self), final(self), Table::Entries),
            final(self).entries@ == entries_kept(old(self).entries@, ids@),
    {
        let ghost start = self.entries@;
        let ghost next = self.next_id;
        let mut kept: Vec<Entry> = Vec::new();
        let mut i: usize = 0;
        while i < self.entries.len()
            invariant
                self.entries@ == start,
                self.next_id == next,
                i <= start.len(),
                ids_ok(entry_ids(start), next),
                kept@ == entries_kept(start.take(i as int), ids@),
                kept@.len() <= i,
                forall|k: int| 0 <= k < start.len() ==> user_with(self.users@, #[trigger] start[k].user_id).is_some(),
                forall|k: int| 0 <= k < kept@.len() ==> user_with(self.users@, #[trigger] kept@[k].user_id).is_some(),
                forall|k: int| 0 <= k < kept@.len() ==> 0 < #[trigger] kept@[k].id < next,
                forall|k: int, l: int| 0 <= k < l < kept@.len() ==> kept@[k].id < kept@[l].id,
                i < start.len() && kept@.len() > 0 ==> kept@.last().id < start[i as int].id,
            decreases start.len() - i,
        {
            proof {
                lemma_take_succ(start, i as int);
                assert(entry_ids(start)[i as int] == start[i as int].id);
                if i + 1 < start.len() {
                    assert(entry_ids(start)[i + 1] == start[i + 1].id);
                }
            }
            if !contains_id(ids, self.entries[i].id) {
                kept.push(self.entries[i].copy());
            }
            i = i + 1;
        }
        assert(start.take(i as int) =~= start);
        self.entries = kept;
    }

    /// Removes every topic row whose id is in `ids`.
    pub fn delete_topics(&mut self, ids: &Vec<i32>)
        requires
            old(self).wf(),
        ensures
            final(self).wf(),
            final(self).next_id == old(self).next_id,
            agree_except(old(self), final(self), Table::Topics),
            final(self).topics@ == topics_kept(old(self).topics@, ids@),
    {
        let ghost start = self.topics@;
        let ghost next = self.next_id;
        let mut kept: Vec<Topic> = Vec::new();
        let mut i: usize = 0;
        while i < self.topics.len()
            invariant
                self.topics@ == start,
                self.next_id == next,
                i <= start.len(),
                ids_ok(topic_ids(start), next),
                kept@ == topics_kept(start.take(i as int), ids@),
                kept@.len() <= i,
                forall|k: int| 0 <= k < kept@.len() ==> 0 < #[trigger] kept@[k].id < next,
                forall|k: int, l: int| 0 <= k < l < kept@.len() ==> kept@[k].id < kept@[l].id,
                i < start.len() && kept@.len() > 0 ==> kept@.last().id < start[i as int].id,
            decreases start.len() - i,
        {
            proof {
                lemma_take_succ(start, i as int);
                assert(topic_ids(start)[i as int] == start[i as int].id);
                if i + 1 < start.len() {
                    assert(topic_ids(start)[i + 1] == start[i + 1].id);
                }
            }
            if !contains_id(ids, self.topics[i].id) {
                kept.push(self.topics[i].copy());
            }
            i = i + 1;
        }
        assert(start.take(i as int) =~= start);
        self.topics = kept;
    }

    /// Draws the next id, or fails when the sequence is used up.
    fn take_id(&mut self) -> (r: Result<i32, StoreError>)
        ensures
            match r {
                Ok(id) => {
                    &&& old(self).next_id < i32::MAX
                    &&& id == old(self).next_id
                    &&& *final(self) == (Store { next_id: (id + 1) as i32, ..*old(self) })
                },
                Err(e) => {
                    &&& old(self).next_id == i32::MAX
                    &&& e == StoreError::Exhausted
                    &&& *final(self) == *old(self)
                },
            },
    {
        if self.next_id == i32::MAX {
            Err(StoreError::Exhausted)
        } else {
            let id = self.next_id;
            self.next_id = id + 1;
            Ok(id)
        }
    }

    /// Adds a group with the given code and returns its id.
    pub fn add_group(&mut self, code: String) -> (r: Result<i32, StoreError>)
        requires
            old(self).wf(),
        ensures
            final(self).wf(),
            match r {
                Ok(id) => {
                    &&& id == old(self).next_id
                    &&& final(self).groups@ == old(self).groups@.push(Group { id, code })
                    &&& final(self).next_id == id + 1
                    &&& final(self).users == old(self).users
                    &&& final(self).topics == old(self).topics
                    &&& final(self).entries == old(self).entries
                    &&& final(self).comments == old(self).comments
                    &&& final(self).marks == old(self).marks
                    &&& final(self).votes == old(self).votes
                    &&& final(self).categories == old(self).categories
                },
                Err(e) => e == StoreError::Exhausted && old(self).next_id == i32::MAX
                    && *final(self) == *old(self),
            },
    {
        let id = match self.take_id() {
            Ok(id) => id,
            Err(e) => return Err(e),
        };
        proof {
            let ids = group_ids(self.groups@);
            assert(ids_ok(ids, id));
        }
        let ghost before = self.groups@;
        self.groups.push(Group { id, code });
        proof {
            assert forall|k: int| 0 <= k < self.users@.len() implies group_with(
                self.groups@,
                #[trigger] self.users@[k].group_id,
            ).is_some() by {
                lemma_group_push(before, self.groups@.last(), self.users@[k].group_id);
                assert(before.push(self.groups@.last()) == self.groups@);
            }
            assert(group_ids(self.groups@) =~= group_ids(old(self).groups@).push(id));
        }
        Ok(id)
    }
}

} // verus!
