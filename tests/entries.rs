use ocean::controller::comment::{self, NewComment};
use ocean::controller::mandela::{self, CreateReq, GetAllReq, GetOneReq, MarkReq, UpdateReq, VoteReq};
use ocean::controller::user;
use ocean::controller::ApiError;
use ocean::model::{NewEntry, Store};

fn new_entry(title: &str, user_id: i32) -> NewEntry {
    NewEntry {
        title_mode: 0,
        title: title.to_string(),
        what: "what".to_string(),
        before: "before".to_string(),
        after: "after".to_string(),
        description: "description".to_string(),
        images: "[]".to_string(),
        videos: "[]".to_string(),
        links: "[]".to_string(),
        user_id,
    }
}

/// A store with one group (id 1) and users U1 (id 2) and U2 (id 3).
fn two_users() -> Store {
    let mut s = Store::new();
    assert_eq!(s.add_group("member".to_string()), Ok(1));
    let u1 = user::create(&mut s, user::CreateReq { name: Some("one".to_string()), code: "member".to_string() }, 10);
    let u2 = user::create(&mut s, user::CreateReq { name: None, code: "member".to_string() }, 10);
    assert_eq!(u1, Ok(2));
    assert_eq!(u2, Ok(3));
    s
}

fn add_entry(s: &mut Store, title: &str, owner: i32) -> i32 {
    mandela::create(s, CreateReq { entry: new_entry(title, owner), categories: vec![] }, 20).unwrap()
}

fn list(s: &Store, viewer: Option<i32>, filter: Option<i8>) -> mandela::EntryList {
    mandela::get_all(s, &GetAllReq { offset: 0, limit: 10, user_id: viewer, filter }).unwrap()
}

#[test]
fn listing_counts_comments_without_viewer() {
    let mut s = two_users();
    let e = add_entry(&mut s, "E", 2);
    for text in ["C1", "C2"] {
        let c = NewComment { mandela_id: e, user_id: 3, message: text.to_string() };
        assert_eq!(comment::create(&mut s, c, 30), Ok(()));
    }
    let l = list(&s, None, Some(0));
    assert_eq!(l.mandels.len(), 1);
    let row = &l.mandels[0];
    assert_eq!(row.id, e);
    assert_eq!(row.comment_count, 2);
    assert_eq!(row.mark_ts, None);
    assert_eq!(row.user_name, Some("one".to_string()));
    assert_eq!(l.total_count, 1);
    assert_eq!(l.new_count, 0);
    assert_eq!(l.mine_count, 0);
}

#[test]
fn marked_entry_leaves_unseen_listing() {
    let mut s = two_users();
    let e = add_entry(&mut s, "E", 2);
    assert_eq!(mandela::mark(&mut s, &MarkReq { id: e, user_id: 3 }, 77), Ok(()));
    let unseen = list(&s, Some(3), Some(1));
    assert!(unseen.mandels.iter().all(|r| r.id != e));
    let all = list(&s, Some(3), Some(0));
    assert_eq!(all.mandels.len(), 1);
    assert_eq!(all.mandels[0].id, e);
    assert_eq!(all.mandels[0].mark_ts, Some(77));
    assert_eq!(all.new_count, 0);
    let other = list(&s, Some(2), Some(1));
    assert_eq!(other.mandels.len(), 1);
}

#[test]
fn marking_twice_keeps_one_mark() {
    let mut s = two_users();
    let e = add_entry(&mut s, "E", 2);
    assert_eq!(mandela::mark(&mut s, &MarkReq { id: e, user_id: 3 }, 1), Ok(()));
    assert_eq!(mandela::mark(&mut s, &MarkReq { id: e, user_id: 3 }, 2), Ok(()));
    assert_eq!(s.marks.len(), 1);
    assert_eq!(list(&s, Some(3), None).mandels[0].mark_ts, Some(1));
}

#[test]
fn mine_filter_shows_only_own_entries() {
    let mut s = two_users();
    let a = add_entry(&mut s, "A", 2);
    let b = add_entry(&mut s, "B", 3);
    let c = add_entry(&mut s, "C", 2);
    let mine = list(&s, Some(2), Some(2));
    let ids: Vec<i32> = mine.mandels.iter().map(|r| r.id).collect();
    assert_eq!(ids, vec![c, a]);
    assert_eq!(mine.mine_count, 2);
    assert_eq!(mine.total_count, 3);
    let nobody = list(&s, None, Some(2));
    assert!(nobody.mandels.is_empty());
    let all = list(&s, Some(3), Some(0));
    let ids: Vec<i32> = all.mandels.iter().map(|r| r.id).collect();
    assert_eq!(ids, vec![c, b, a]);
}

#[test]
fn listing_pages_newest_first() {
    let mut s = two_users();
    let a = add_entry(&mut s, "A", 2);
    let b = add_entry(&mut s, "B", 2);
    let c = add_entry(&mut s, "C", 2);
    let p = mandela::get_all(&s, &GetAllReq { offset: 1, limit: 1, user_id: None, filter: None }).unwrap();
    assert_eq!(p.mandels.len(), 1);
    assert_eq!(p.mandels[0].id, b);
    let tail = mandela::get_all(&s, &GetAllReq { offset: 2, limit: 5, user_id: None, filter: None }).unwrap();
    assert_eq!(tail.mandels.len(), 1);
    assert_eq!(tail.mandels[0].id, a);
    let past = mandela::get_all(&s, &GetAllReq { offset: 9, limit: 5, user_id: None, filter: None }).unwrap();
    assert!(past.mandels.is_empty());
    assert_eq!(past.total_count, 3);
    assert_ne!(c, b);
}

#[test]
fn new_count_subtracts_viewer_marks() {
    let mut s = two_users();
    let a = add_entry(&mut s, "A", 2);
    add_entry(&mut s, "B", 2);
    add_entry(&mut s, "C", 3);
    mandela::mark(&mut s, &MarkReq { id: a, user_id: 3 }, 5).unwrap();
    let l = list(&s, Some(3), None);
    assert_eq!(l.total_count, 3);
    assert_eq!(l.new_count, 2);
    assert_eq!(l.mine_count, 1);
}

#[test]
fn unknown_filter_is_an_error() {
    let s = two_users();
    let r = mandela::get_all(&s, &GetAllReq { offset: 0, limit: 10, user_id: None, filter: Some(3) });
    assert!(matches!(r, Err(ApiError::UnknownFilter)));
}

#[test]
fn negative_offset_is_bad_params() {
    let s = two_users();
    let r = mandela::get_all(&s, &GetAllReq { offset: -1, limit: 10, user_id: None, filter: None });
    assert!(matches!(r, Err(ApiError::BadParams)));
    let r = mandela::get_all(&s, &GetAllReq { offset: 0, limit: -1, user_id: None, filter: None });
    assert!(matches!(r, Err(ApiError::BadParams)));
}

#[test]
fn detail_without_viewer_has_no_tally() {
    let mut s = two_users();
    let e = add_entry(&mut s, "E", 2);
    mandela::vote(&mut s, &VoteReq { id: e, user_id: 3, vote: 1 }).unwrap();
    let d = mandela::get_one(&s, &GetOneReq { id: e, user_id: None }).unwrap();
    assert!(d.votes.is_none());
    assert_eq!(d.mandela.id, e);
    assert_eq!(d.mandela.title, "E");
    assert_eq!(d.mandela.user_name, Some("one".to_string()));
    assert_eq!(d.mandela.mark_ts, None);
}

#[test]
fn detail_has_tally_only_for_voters() {
    let mut s = two_users();
    let e = add_entry(&mut s, "E", 2);
    mandela::vote(&mut s, &VoteReq { id: e, user_id: 3, vote: -1 }).unwrap();
    let owner = mandela::get_one(&s, &GetOneReq { id: e, user_id: Some(2) }).unwrap();
    assert!(owner.votes.is_none());
    let voter = mandela::get_one(&s, &GetOneReq { id: e, user_id: Some(3) }).unwrap();
    let t = voter.votes.unwrap();
    assert_eq!(t.len(), 1);
    assert_eq!(t[0].vote, -1);
    assert_eq!(t[0].count, 1);
}

#[test]
fn detail_of_missing_entry_is_not_found() {
    let s = two_users();
    let r = mandela::get_one(&s, &GetOneReq { id: 99, user_id: None });
    assert!(matches!(r, Err(ApiError::NotFound)));
}

#[test]
fn repeated_votes_are_all_counted() {
    let mut s = two_users();
    let e = add_entry(&mut s, "E", 2);
    let first = mandela::vote(&mut s, &VoteReq { id: e, user_id: 3, vote: 1 }).unwrap();
    assert_eq!(first.len(), 1);
    assert_eq!(first[0].count, 1);
    let second = mandela::vote(&mut s, &VoteReq { id: e, user_id: 3, vote: 1 }).unwrap();
    assert_eq!(second.len(), 1);
    assert_eq!(second[0].vote, 1);
    assert_eq!(second[0].count, 2);
    let third = mandela::vote(&mut s, &VoteReq { id: e, user_id: 2, vote: 0 }).unwrap();
    let mut pairs: Vec<(i16, i64)> = third.iter().map(|v| (v.vote, v.count)).collect();
    pairs.sort();
    assert_eq!(pairs, vec![(0, 1), (1, 2)]);
}

#[test]
fn vote_on_missing_entry_is_refused() {
    let mut s = two_users();
    let r = mandela::vote(&mut s, &VoteReq { id: 42, user_id: 3, vote: 1 });
    assert!(matches!(r, Err(ApiError::MissingReference)));
    assert!(s.votes.is_empty());
}

#[test]
fn entry_create_stores_categories() {
    let mut s = two_users();
    let e = mandela::create(&mut s, CreateReq { entry: new_entry("E", 2), categories: vec![3, 7] }, 20).unwrap();
    assert_eq!(s.categories.len(), 2);
    assert_eq!(s.categories[0].mandela_id, e);
    assert_eq!(s.categories[0].number, 3);
    assert_eq!(s.categories[1].number, 7);
    assert_eq!(s.categories[1].id, e + 2);
}

#[test]
fn entry_create_needs_an_owner() {
    let mut s = two_users();
    let r = mandela::create(&mut s, CreateReq { entry: new_entry("E", 50), categories: vec![] }, 20);
    assert!(matches!(r, Err(ApiError::MissingReference)));
    assert!(s.entries.is_empty());
}

#[test]
fn entry_update_rewrites_fields() {
    let mut s = two_users();
    let e = add_entry(&mut s, "E", 2);
    let r = mandela::update(&mut s, &UpdateReq { id: e, entry: new_entry("F", 3) }, 99);
    assert_eq!(r, Ok(()));
    assert_eq!(s.entries[0].title, "F");
    assert_eq!(s.entries[0].user_id, 3);
    assert_eq!(s.entries[0].create_ts, 20);
    assert_eq!(s.entries[0].update_ts, 99);
}

#[test]
fn entry_delete_removes_listed_ids() {
    let mut s = two_users();
    let a = add_entry(&mut s, "A", 2);
    let b = add_entry(&mut s, "B", 2);
    let c = add_entry(&mut s, "C", 2);
    assert_eq!(mandela::delete(&mut s, &vec![a, c]), Ok(()));
    let ids: Vec<i32> = s.entries.iter().map(|e| e.id).collect();
    assert_eq!(ids, vec![b]);
}

#[test]
fn comment_listing_pages_oldest_first() {
    let mut s = two_users();
    let e = add_entry(&mut s, "E", 2);
    for text in ["a", "b", "c"] {
        comment::create(&mut s, NewComment { mandela_id: e, user_id: 2, message: text.to_string() }, 1).unwrap();
    }
    let l = comment::get_all(&s, &comment::GetAllReq { mandela_id: e, offset: 1, limit: 5 }).unwrap();
    assert_eq!(l.total_count, 3);
    let texts: Vec<&str> = l.comments.iter().map(|c| c.message.as_str()).collect();
    assert_eq!(texts, vec!["b", "c"]);
    assert_eq!(l.comments[0].user_name, Some("one".to_string()));
}

#[test]
fn comment_update_changes_message() {
    let mut s = two_users();
    let e = add_entry(&mut s, "E", 2);
    comment::create(&mut s, NewComment { mandela_id: e, user_id: 2, message: "x".to_string() }, 1).unwrap();
    let id = s.comments[0].id;
    comment::update(&mut s, &comment::UpdateReq { id, message: "y".to_string() }).unwrap();
    assert_eq!(s.comments[0].message, "y");
}

#[test]
fn comment_on_missing_entry_is_refused() {
    let mut s = two_users();
    let r = comment::create(&mut s, NewComment { mandela_id: 9, user_id: 2, message: "x".to_string() }, 1);
    assert!(matches!(r, Err(ApiError::MissingReference)));
}

#[test]
fn requery_without_writes_gives_same_counts() {
    let mut s = two_users();
    let e = add_entry(&mut s, "E", 2);
    comment::create(&mut s, NewComment { mandela_id: e, user_id: 2, message: "m".to_string() }, 1).unwrap();
    let first = list(&s, Some(3), None);
    let second = list(&s, Some(3), None);
    assert_eq!(first.mandels.len(), second.mandels.len());
    assert_eq!(first.mandels[0].comment_count, 1);
    assert_eq!(second.mandels[0].comment_count, 1);
    assert_eq!(first.total_count, second.total_count);
    assert_eq!(first.new_count, second.new_count);
}

#[test]
fn all_filter_ignores_marks_and_owner() {
    let mut s = two_users();
    let a = add_entry(&mut s, "A", 2);
    let b = add_entry(&mut s, "B", 3);
    mandela::mark(&mut s, &MarkReq { id: a, user_id: 3 }, 4).unwrap();
    let seen_by_none: Vec<i32> = list(&s, None, None).mandels.iter().map(|r| r.id).collect();
    let seen_by_marker: Vec<i32> = list(&s, Some(3), Some(0)).mandels.iter().map(|r| r.id).collect();
    assert_eq!(seen_by_none, vec![b, a]);
    assert_eq!(seen_by_marker, vec![b, a]);
}
