//! The order in which records are kept: by time of last use, oldest first.

use std::cmp::Ordering;
use vstd::prelude::*;

use crate::config::record::{not_after, HistoryRecord, Timestamp};

verus! {

/// How two instants compare.
pub open spec fn instants_compared(a: Timestamp, b: Timestamp) -> Ordering {
    if a.secs < b.secs || (a.secs == b.secs && a.nanos < b.nanos) {
        Ordering::Less
    } else if a == b {
        Ordering::Equal
    } else {
        Ordering::Greater
    }
}

/// Compares two records by their time of last use.
pub fn cmp_last_used(a: &HistoryRecord, b: &HistoryRecord) -> (o: Ordering)
    ensures
        o == instants_compared(a@.last_used, b@.last_used),
{
    let x = a.last_used();
    let y = b.last_used();
    if x.secs < y.secs || (x.secs == y.secs && x.nanos < y.nanos) {
        Ordering::Less
    } else if x.secs == y.secs && x.nanos == y.nanos {
        Ordering::Equal
    } else {
        Ordering::Greater
    }
}

/// Whether `a` was last used later than `b`.
pub fn used_later(a: &HistoryRecord, b: &HistoryRecord) -> (r: bool)
    ensures
        r == !not_after(a@.last_used, b@.last_used),
{
    match cmp_last_used(a, b) {
        Ordering::Greater => true,
        _ => false,
    }
}

} // verus!
