//! Offset/limit pagination.

use vstd::prelude::*;

verus! {

/// The part of `s` that starts `offset` items in and holds at most `limit`.
pub open spec fn page<A>(s: Seq<A>, offset: int, limit: int) -> Seq<A> {
    let lo = if offset < s.len() { offset } else { s.len() as int };
    let hi = if offset + limit < s.len() { offset + limit } else { s.len() as int };
    s.subrange(lo, hi)
}

/// The part of `rows` that starts `offset` rows in and holds at most `limit`.
pub fn take_page<T>(rows: Vec<T>, offset: i64, limit: i64) -> (r: Vec<T>)
    requires
        offset >= 0,
        limit >= 0,
    ensures
        r@ == page(rows@, offset as int, limit as int),
{
    let mut rows = rows;
    let n = rows.len();
    let lo: usize = if (offset as u64) < (n as u64) { offset as usize } else { n };
    let hi: usize = if (limit as u64) < ((n - lo) as u64) { lo + limit as usize } else { n };
    rows.truncate(hi);
    rows.split_off(lo)
}

} // verus!
