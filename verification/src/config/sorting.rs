//! The mathematics of the history list: removing a pair, inserting by time,
//! and the stable sort that keeps the list ordered by time of last use.

use vstd::prelude::*;

use crate::config::record::{not_after, same_pair, RecordView, Timestamp};

verus! {

/// The records that are not for the given pair, in their order.
pub open spec fn without_pair(s: Seq<RecordView>, svn_path: Seq<char>, git_path: Seq<char>) -> Seq<
    RecordView,
>
    decreases s.len(),
{
    if s.len() == 0 {
        Seq::empty()
    } else if same_pair(s.last(), svn_path, git_path) {
        without_pair(s.drop_last(), svn_path, git_path)
    } else {
        without_pair(s.drop_last(), svn_path, git_path).push(s.last())
    }
}

/// `r` put behind the records that are not later than it: the list is walked
/// from its end, past every record that is later than `r`.
pub open spec fn inserted(s: Seq<RecordView>, r: RecordView) -> Seq<RecordView>
    decreases s.len(),
{
    if s.len() == 0 || not_after(s.last().last_used, r.last_used) {
        s.push(r)
    } else {
        inserted(s.drop_last(), r).push(s.last())
    }
}

/// The records ordered by time of last use, oldest first; records of equal
/// time keep their order.
pub open spec fn stable_sorted(s: Seq<RecordView>) -> Seq<RecordView>
    decreases s.len(),
{
    if s.len() == 0 {
        Seq::empty()
    } else {
        inserted(stable_sorted(s.drop_last()), s.last())
    }
}

/// The list is in ascending order of time of last use.
pub open spec fn ascending(s: Seq<RecordView>) -> bool {
    forall|i: int, j: int| 0 <= i < j < s.len() ==> not_after(s[i].last_used, s[j].last_used)
}

/// Some record of the list is for the given pair.
pub open spec fn has_pair(s: Seq<RecordView>, svn_path: Seq<char>, git_path: Seq<char>) -> bool {
    exists|i: int| 0 <= i < s.len() && same_pair(#[trigger] s[i], svn_path, git_path)
}

/// No two records of the list are for the same pair.
pub open spec fn pairs_unique(s: Seq<RecordView>) -> bool {
    forall|i: int, j: int|
        0 <= i < j < s.len() ==> !same_pair(
            #[trigger] s[i],
            (#[trigger] s[j]).svn_path,
            s[j].git_path,
        )
}

/// The invariant of the history list.
pub open spec fn history_ok(s: Seq<RecordView>) -> bool {
    ascending(s) && pairs_unique(s)
}

/// The number under which the pair is remembered, if it is: that of its
/// record, and of the last one should the list hold several.
pub open spec fn pair_id(s: Seq<RecordView>, svn_path: Seq<char>, git_path: Seq<char>) -> Option<
    usize,
>
    decreases s.len(),
{
    if s.len() == 0 {
        None
    } else if same_pair(s.last(), svn_path, git_path) {
        Some(s.last().id)
    } else {
        pair_id(s.drop_last(), svn_path, git_path)
    }
}

/// The record that `add` creates. A pair that is remembered keeps its
/// number, so that using it again changes nothing but the time; a pair that
/// is new is numbered one past the records of the list.
pub open spec fn new_record(
    s: Seq<RecordView>,
    svn_path: Seq<char>,
    git_path: Seq<char>,
    now: Timestamp,
) -> RecordView {
    RecordView {
        id: match pair_id(s, svn_path, git_path) {
            Some(id) => id,
            None => (s.len() + 1) as usize,
        },
        svn_path,
        git_path,
        last_used: now,
    }
}

/// The list after the pair was used at `now`: any record for the pair is
/// removed, a fresh one is appended, and the list is put in order again.
pub open spec fn added(
    s: Seq<RecordView>,
    svn_path: Seq<char>,
    git_path: Seq<char>,
    now: Timestamp,
) -> Seq<RecordView> {
    stable_sorted(
        without_pair(s, svn_path, git_path).push(new_record(s, svn_path, git_path, now)),
    )
}

/// Where `inserted` puts a record: at `p`, if everything from `p` on is
/// later than the record and the record before `p` is not.
pub proof fn lemma_inserted_at(s: Seq<RecordView>, r: RecordView, p: int)
    requires
        0 <= p <= s.len(),
        forall|j: int| p <= j < s.len() ==> !not_after(s[j].last_used, r.last_used),
        p > 0 ==> not_after(s[p - 1].last_used, r.last_used),
    ensures
        inserted(s, r) == s.insert(p, r),
    decreases s.len(),
{
    if s.len() == p {
        assert(s.push(r) =~= s.insert(p, r));
    } else {
        assert(!not_after(s.last().last_used, r.last_used));
        let t = s.drop_last();
        assert forall|j: int| p <= j < t.len() implies !not_after(t[j].last_used, r.last_used) by {
            assert(t[j] == s[j]);
        }
        if p > 0 {
            assert(t[p - 1] == s[p - 1]);
        }
        lemma_inserted_at(t, r, p);
        assert(t.insert(p, r).push(s.last()) =~= s.insert(p, r));
    }
}

/// Inserting adds exactly one record and keeps every other one.
pub proof fn lemma_inserted_shape(s: Seq<RecordView>, r: RecordView)
    ensures
        exists|p: int|
            0 <= p <= s.len() && #[trigger] s.insert(p, r) == inserted(s, r) && (forall|j: int|
                p <= j < s.len() ==> !not_after(s[j].last_used, r.last_used)) && (p > 0
                ==> not_after(s[p - 1].last_used, r.last_used)),
    decreases s.len(),
{
    if s.len() == 0 || not_after(s.last().last_used, r.last_used) {
        let p = s.len() as int;
        assert(s.insert(p, r) =~= s.push(r));
    } else {
        let t = s.drop_last();
        lemma_inserted_shape(t, r);
        let p = choose|p: int|
            0 <= p <= t.len() && #[trigger] t.insert(p, r) == inserted(t, r) && (forall|j: int|
                p <= j < t.len() ==> !not_after(t[j].last_used, r.last_used)) && (p > 0
                ==> not_after(t[p - 1].last_used, r.last_used));
        assert(t.insert(p, r).push(s.last()) =~= s.insert(p, r));
        assert forall|j: int| p <= j < s.len() implies !not_after(s[j].last_used, r.last_used) by {
            if j < t.len() {
                assert(t[j] == s[j]);
            }
        }
        if p > 0 {
            assert(t[p - 1] == s[p - 1]);
        }
    }
}

/// Inserting into an ordered list gives an ordered list.
pub proof fn lemma_inserted_ascending(s: Seq<RecordView>, r: RecordView)
    requires
        ascending(s),
    ensures
        ascending(inserted(s, r)),
        inserted(s, r).len() == s.len() + 1,
{
    lemma_inserted_shape(s, r);
    let p = choose|p: int|
        0 <= p <= s.len() && #[trigger] s.insert(p, r) == inserted(s, r) && (forall|j: int|
            p <= j < s.len() ==> !not_after(s[j].last_used, r.last_used)) && (p > 0 ==> not_after(
            s[p - 1].last_used,
            r.last_used,
        ));
    let t = s.insert(p, r);
    assert forall|i: int, j: int| 0 <= i < j < t.len() implies not_after(
        t[i].last_used,
        t[j].last_used,
    ) by {
        if j < p {
            assert(t[i] == s[i] && t[j] == s[j]);
        } else if j == p {
            assert(t[i] == s[i]);
            if i < p - 1 {
                assert(not_after(s[i].last_used, s[p - 1].last_used));
            }
        } else if i == p {
            assert(t[j] == s[j - 1]);
            assert(!not_after(s[j - 1].last_used, r.last_used));
        } else if i < p {
            assert(t[i] == s[i] && t[j] == s[j - 1]);
        } else {
            assert(t[i] == s[i - 1] && t[j] == s[j - 1]);
        }
    }
}

/// Sorting orders the list and keeps its length.
pub proof fn lemma_sorted_ascending(s: Seq<RecordView>)
    ensures
        ascending(stable_sorted(s)),
        stable_sorted(s).len() == s.len(),
    decreases s.len(),
{
    if s.len() > 0 {
        lemma_sorted_ascending(s.drop_last());
        lemma_inserted_ascending(stable_sorted(s.drop_last()), s.last());
    }
}

/// Sorting an ordered list changes nothing.
pub proof fn lemma_sorted_fixed(s: Seq<RecordView>)
    requires
        ascending(s),
    ensures
        stable_sorted(s) == s,
    decreases s.len(),
{
    if s.len() > 0 {
        let t = s.drop_last();
        assert forall|i: int, j: int| 0 <= i < j < t.len() implies not_after(
            t[i].last_used,
            t[j].last_used,
        ) by {
            assert(t[i] == s[i] && t[j] == s[j]);
        }
        lemma_sorted_fixed(t);
        if t.len() > 0 {
            assert(t.last() == s[s.len() - 2]);
            assert(not_after(s[s.len() - 2].last_used, s[s.len() - 1].last_used));
        }
        assert(t.push(s.last()) =~= s);
    }
}

/// A pair is in the list after an insertion exactly if it was there before
/// or is the pair of the inserted record.
pub proof fn lemma_inserted_has_pair(
    s: Seq<RecordView>,
    r: RecordView,
    svn_path: Seq<char>,
    git_path: Seq<char>,
)
    ensures
        has_pair(inserted(s, r), svn_path, git_path) <==> has_pair(s, svn_path, git_path)
            || same_pair(r, svn_path, git_path),
{
    lemma_inserted_shape(s, r);
    let p = choose|p: int|
        0 <= p <= s.len() && #[trigger] s.insert(p, r) == inserted(s, r) && (forall|j: int|
            p <= j < s.len() ==> !not_after(s[j].last_used, r.last_used)) && (p > 0 ==> not_after(
            s[p - 1].last_used,
            r.last_used,
        ));
    let t = s.insert(p, r);
    if has_pair(t, svn_path, git_path) {
        let i = choose|i: int| 0 <= i < t.len() && same_pair(#[trigger] t[i], svn_path, git_path);
        if i < p {
            assert(same_pair(s[i], svn_path, git_path));
        } else if i > p {
            assert(same_pair(s[i - 1], svn_path, git_path));
        }
    }
    if has_pair(s, svn_path, git_path) {
        let i = choose|i: int| 0 <= i < s.len() && same_pair(#[trigger] s[i], svn_path, git_path);
        if i < p {
            assert(same_pair(t[i], svn_path, git_path));
        } else {
            assert(same_pair(t[i + 1], svn_path, git_path));
        }
    }
    if same_pair(r, svn_path, git_path) {
        assert(same_pair(t[p], svn_path, git_path));
    }
}

/// Sorting neither adds nor loses a pair.
pub proof fn lemma_sorted_has_pair(s: Seq<RecordView>, svn_path: Seq<char>, git_path: Seq<char>)
    ensures
        has_pair(stable_sorted(s), svn_path, git_path) <==> has_pair(s, svn_path, git_path),
    decreases s.len(),
{
    if s.len() > 0 {
        let t = s.drop_last();
        lemma_sorted_has_pair(t, svn_path, git_path);
        lemma_inserted_has_pair(stable_sorted(t), s.last(), svn_path, git_path);
        if has_pair(s, svn_path, git_path) {
            let i = choose|i: int|
                0 <= i < s.len() && same_pair(#[trigger] s[i], svn_path, git_path);
            if i < t.len() {
                assert(same_pair(t[i], svn_path, git_path));
            }
        }
        if has_pair(t, svn_path, git_path) {
            let i = choose|i: int|
                0 <= i < t.len() && same_pair(#[trigger] t[i], svn_path, git_path);
            assert(same_pair(s[i], svn_path, git_path));
        }
        if same_pair(s.last(), svn_path, git_path) {
            assert(same_pair(s[s.len() - 1], svn_path, git_path));
        }
    }
}

/// Removing a pair leaves no record for it, keeps the others, and changes
/// nothing where the pair does not occur.
pub proof fn lemma_without_pair(s: Seq<RecordView>, svn_path: Seq<char>, git_path: Seq<char>)
    ensures
        !has_pair(without_pair(s, svn_path, git_path), svn_path, git_path),
        without_pair(s, svn_path, git_path).len() <= s.len(),
        !has_pair(s, svn_path, git_path) ==> without_pair(s, svn_path, git_path) == s,
        has_pair(s, svn_path, git_path) ==> without_pair(s, svn_path, git_path).len() < s.len(),
        forall|k: int|
            0 <= k < without_pair(s, svn_path, git_path).len() ==> exists|i: int|
                0 <= i < s.len() && s[i] == #[trigger] without_pair(s, svn_path, git_path)[k],
    decreases s.len(),
{
    if s.len() > 0 {
        let t = s.drop_last();
        let w = without_pair(s, svn_path, git_path);
        let wt = without_pair(t, svn_path, git_path);
        lemma_without_pair(t, svn_path, git_path);
        if has_pair(w, svn_path, git_path) {
            let i = choose|i: int|
                0 <= i < w.len() && same_pair(#[trigger] w[i], svn_path, git_path);
            if i < wt.len() {
                assert(same_pair(wt[i], svn_path, git_path));
            }
        }
        if !has_pair(s, svn_path, git_path) {
            assert(!same_pair(s[s.len() - 1], svn_path, git_path));
            if has_pair(t, svn_path, git_path) {
                let i = choose|i: int|
                    0 <= i < t.len() && same_pair(#[trigger] t[i], svn_path, git_path);
                assert(same_pair(s[i], svn_path, git_path));
            }
            assert(t.push(s.last()) =~= s);
        } else {
            if !same_pair(s.last(), svn_path, git_path) {
                let i = choose|i: int|
                    0 <= i < s.len() && same_pair(#[trigger] s[i], svn_path, git_path);
                assert(same_pair(t[i], svn_path, git_path));
            }
        }
        assert forall|k: int| 0 <= k < w.len() implies exists|i: int|
            0 <= i < s.len() && s[i] == #[trigger] w[k] by {
            if k < wt.len() {
                let i = choose|i: int| 0 <= i < t.len() && t[i] == wt[k];
                assert(s[i] == w[k]);
            } else {
                assert(s[s.len() - 1] == w[k]);
            }
        }
    }
}

/// Removing the pair of a record that was just inserted gives back what
/// removing it before the insertion gives.
pub proof fn lemma_without_inserted(
    s: Seq<RecordView>,
    r: RecordView,
    svn_path: Seq<char>,
    git_path: Seq<char>,
)
    requires
        same_pair(r, svn_path, git_path),
    ensures
        without_pair(inserted(s, r), svn_path, git_path) == without_pair(s, svn_path, git_path),
    decreases s.len(),
{
    if s.len() == 0 || not_after(s.last().last_used, r.last_used) {
        assert(s.push(r).drop_last() =~= s);
    } else {
        let t = s.drop_last();
        lemma_without_inserted(t, r, svn_path, git_path);
        assert(inserted(t, r).push(s.last()).drop_last() =~= inserted(t, r));
    }
}

/// The number of a pair is that of its record.
pub proof fn lemma_pair_id(s: Seq<RecordView>, svn_path: Seq<char>, git_path: Seq<char>)
    ensures
        pair_id(s, svn_path, git_path) is Some <==> has_pair(s, svn_path, git_path),
        forall|i: int|
            0 <= i < s.len() && same_pair(#[trigger] s[i], svn_path, git_path) && pairs_unique(s)
                ==> pair_id(s, svn_path, git_path) == Some(s[i].id),
    decreases s.len(),
{
    if s.len() > 0 {
        let t = s.drop_last();
        lemma_pair_id(t, svn_path, git_path);
        if same_pair(s.last(), svn_path, git_path) {
            assert(same_pair(s[s.len() - 1], svn_path, git_path));
            assert forall|i: int|
                0 <= i < s.len() && same_pair(#[trigger] s[i], svn_path, git_path) && pairs_unique(
                    s,
                ) implies pair_id(s, svn_path, git_path) == Some(s[i].id) by {
                if i < s.len() - 1 {
                    assert(!same_pair(s[i], s[s.len() - 1].svn_path, s[s.len() - 1].git_path));
                }
            }
        } else {
            if has_pair(s, svn_path, git_path) {
                let i = choose|i: int|
                    0 <= i < s.len() && same_pair(#[trigger] s[i], svn_path, git_path);
                assert(same_pair(t[i], svn_path, git_path));
            }
            if has_pair(t, svn_path, git_path) {
                let i = choose|i: int|
                    0 <= i < t.len() && same_pair(#[trigger] t[i], svn_path, git_path);
                assert(same_pair(s[i], svn_path, git_path));
            }
            assert forall|i: int|
                0 <= i < s.len() && same_pair(#[trigger] s[i], svn_path, git_path) && pairs_unique(
                    s,
                ) implies pair_id(s, svn_path, git_path) == Some(s[i].id) by {
                assert(t[i] == s[i]);
                assert forall|a: int, b: int| 0 <= a < b < t.len() implies !same_pair(
                    #[trigger] t[a],
                    (#[trigger] t[b]).svn_path,
                    t[b].git_path,
                ) by {
                    assert(t[a] == s[a] && t[b] == s[b]);
                }
            }
        }
    }
}

/// After a record for a pair was inserted into a list without the pair, the
/// number of the pair is that of the record.
pub proof fn lemma_pair_id_inserted(
    s: Seq<RecordView>,
    r: RecordView,
    svn_path: Seq<char>,
    git_path: Seq<char>,
)
    requires
        same_pair(r, svn_path, git_path),
        !has_pair(s, svn_path, git_path),
    ensures
        pair_id(inserted(s, r), svn_path, git_path) == Some(r.id),
    decreases s.len(),
{
    if s.len() == 0 || not_after(s.last().last_used, r.last_used) {
        assert(s.push(r).last() == r);
    } else {
        let t = s.drop_last();
        if has_pair(t, svn_path, git_path) {
            let i = choose|i: int|
                0 <= i < t.len() && same_pair(#[trigger] t[i], svn_path, git_path);
            assert(same_pair(s[i], svn_path, git_path));
        }
        lemma_pair_id_inserted(t, r, svn_path, git_path);
        let u = inserted(t, r).push(s.last());
        assert(u.drop_last() =~= inserted(t, r));
        assert(u.last() == s[s.len() - 1]);
        assert(!same_pair(s[s.len() - 1], svn_path, git_path));
    }
}

/// Removing a pair keeps the order of the other records.
pub proof fn lemma_without_keeps_ascending(
    s: Seq<RecordView>,
    svn_path: Seq<char>,
    git_path: Seq<char>,
)
    requires
        ascending(s),
    ensures
        ascending(without_pair(s, svn_path, git_path)),
    decreases s.len(),
{
    if s.len() > 0 {
        let t = s.drop_last();
        assert forall|i: int, j: int| 0 <= i < j < t.len() implies not_after(
            t[i].last_used,
            t[j].last_used,
        ) by {
            assert(t[i] == s[i] && t[j] == s[j]);
        }
        lemma_without_keeps_ascending(t, svn_path, git_path);
        let wt = without_pair(t, svn_path, git_path);
        let w = without_pair(s, svn_path, git_path);
        if !same_pair(s.last(), svn_path, git_path) {
            lemma_without_pair(t, svn_path, git_path);
            assert forall|i: int, j: int| 0 <= i < j < w.len() implies not_after(
                w[i].last_used,
                w[j].last_used,
            ) by {
                if j < wt.len() {
                    assert(w[i] == wt[i] && w[j] == wt[j]);
                } else {
                    let k = choose|k: int| 0 <= k < t.len() && t[k] == wt[i];
                    assert(s[k] == w[i]);
                    assert(not_after(s[k].last_used, s[s.len() - 1].last_used));
                }
            }
        }
    }
}

/// Using a pair that is remembered changes nothing but the time of its
/// record: the list keeps its size, the record keeps its number and paths,
/// and the records for the other pairs stay as they are and in their order.
/// The record itself moves to the place that its new time gives it.
pub proof fn lemma_add_again(
    s: Seq<RecordView>,
    i: int,
    svn_path: Seq<char>,
    git_path: Seq<char>,
    now: Timestamp,
)
    requires
        history_ok(s),
        0 <= i < s.len(),
        same_pair(s[i], svn_path, git_path),
    ensures
        added(s, svn_path, git_path, now).len() == s.len(),
        new_record(s, svn_path, git_path, now) == (RecordView { last_used: now, ..s[i] }),
        added(s, svn_path, git_path, now) == inserted(
            s.remove(i),
            RecordView { last_used: now, ..s[i] },
        ),
        without_pair(added(s, svn_path, git_path, now), svn_path, git_path) == s.remove(i),
{
    let kept = without_pair(s, svn_path, git_path);
    let r = new_record(s, svn_path, git_path, now);
    lemma_pair_id(s, svn_path, git_path);
    lemma_without_removes(s, i, svn_path, git_path);
    lemma_without_keeps_ascending(s, svn_path, git_path);
    lemma_sorted_fixed(kept);
    assert(kept.push(r).drop_last() =~= kept);
    lemma_without_inserted(kept, r, svn_path, git_path);
    lemma_without_pair(s, svn_path, git_path);
    lemma_without_pair(kept, svn_path, git_path);
    lemma_inserted_ascending(kept, r);
}

/// Where no pair occurs twice, removing a pair is removing its record.
pub proof fn lemma_without_removes(
    s: Seq<RecordView>,
    i: int,
    svn_path: Seq<char>,
    git_path: Seq<char>,
)
    requires
        pairs_unique(s),
        0 <= i < s.len(),
        same_pair(s[i], svn_path, git_path),
    ensures
        without_pair(s, svn_path, git_path) == s.remove(i),
    decreases s.len(),
{
    let t = s.drop_last();
    assert forall|a: int, b: int| 0 <= a < b < t.len() implies !same_pair(
        #[trigger] t[a],
        (#[trigger] t[b]).svn_path,
        t[b].git_path,
    ) by {
        assert(t[a] == s[a] && t[b] == s[b]);
    }
    if i == s.len() - 1 {
        if has_pair(t, svn_path, git_path) {
            let k = choose|k: int|
                0 <= k < t.len() && same_pair(#[trigger] t[k], svn_path, git_path);
            assert(t[k] == s[k]);
            assert(!same_pair(s[k], s[s.len() - 1].svn_path, s[s.len() - 1].git_path));
        }
        lemma_without_pair(t, svn_path, git_path);
        assert(s.remove(i) =~= t);
    } else {
        assert(!same_pair(s[i], s[s.len() - 1].svn_path, s[s.len() - 1].git_path));
        assert(t[i] == s[i]);
        lemma_without_removes(t, i, svn_path, git_path);
        assert(t.remove(i).push(s.last()) =~= s.remove(i));
    }
}

/// Using a pair a second time has the effect of using it once, at the later
/// time. The list keeps its size, the records for other pairs stay as they
/// are and in their order, and the record for the pair keeps its number and
/// carries the later time.
pub proof fn lemma_add_twice(
    s: Seq<RecordView>,
    svn_path: Seq<char>,
    git_path: Seq<char>,
    first: Timestamp,
    second: Timestamp,
)
    ensures
        added(added(s, svn_path, git_path, first), svn_path, git_path, second) == added(
            s,
            svn_path,
            git_path,
            second,
        ),
        added(added(s, svn_path, git_path, first), svn_path, git_path, second).len() == added(
            s,
            svn_path,
            git_path,
            first,
        ).len(),
        without_pair(
            added(added(s, svn_path, git_path, first), svn_path, git_path, second),
            svn_path,
            git_path,
        ) == without_pair(added(s, svn_path, git_path, first), svn_path, git_path),
        new_record(added(s, svn_path, git_path, first), svn_path, git_path, second) == (RecordView {
            last_used: second,
            ..new_record(s, svn_path, git_path, first)
        }),
{
    let kept = without_pair(s, svn_path, git_path);
    let base = stable_sorted(kept);
    let r1 = new_record(s, svn_path, git_path, first);
    let once = added(s, svn_path, git_path, first);
    assert(kept.push(r1).drop_last() =~= kept);
    assert(once == inserted(base, r1));
    lemma_without_inserted(base, r1, svn_path, git_path);
    lemma_without_pair(s, svn_path, git_path);
    lemma_sorted_has_pair(kept, svn_path, git_path);
    lemma_without_pair(base, svn_path, git_path);
    assert(without_pair(once, svn_path, git_path) == base);
    lemma_sorted_ascending(kept);
    lemma_sorted_fixed(base);
    let r2 = new_record(once, svn_path, git_path, second);
    lemma_pair_id_inserted(base, r1, svn_path, git_path);
    lemma_pair_id(s, svn_path, git_path);
    lemma_sorted_ascending(kept);
    assert(r2 == (RecordView { last_used: second, ..r1 }));
    assert(base.push(r2).drop_last() =~= base);
    let r3 = new_record(s, svn_path, git_path, second);
    assert(kept.push(r3).drop_last() =~= kept);
    lemma_inserted_ascending(base, r1);
    lemma_inserted_ascending(base, r2);
    lemma_without_inserted(base, r3, svn_path, git_path);
}

/// Using a pair keeps the list in order and holds exactly one record for the
/// pair; where no pair occurred twice before, none does afterwards.
pub proof fn lemma_added_ok(
    s: Seq<RecordView>,
    svn_path: Seq<char>,
    git_path: Seq<char>,
    now: Timestamp,
)
    ensures
        ascending(added(s, svn_path, git_path, now)),
        has_pair(added(s, svn_path, git_path, now), svn_path, git_path),
        added(s, svn_path, git_path, now).len() == without_pair(s, svn_path, git_path).len() + 1,
        has_pair(s, svn_path, git_path) && pairs_unique(s) ==> added(
            s,
            svn_path,
            git_path,
            now,
        ).len() == s.len(),
        !has_pair(s, svn_path, git_path) ==> added(s, svn_path, git_path, now).len() == s.len()
            + 1,
{
    let kept = without_pair(s, svn_path, git_path);
    let r = new_record(s, svn_path, git_path, now);
    lemma_sorted_ascending(kept.push(r));
    lemma_sorted_has_pair(kept.push(r), svn_path, git_path);
    assert(same_pair(kept.push(r)[kept.len() as int], svn_path, git_path));
    lemma_without_pair(s, svn_path, git_path);
    if has_pair(s, svn_path, git_path) && pairs_unique(s) {
        lemma_without_unique(s, svn_path, git_path);
    }
}

/// Where no pair occurs twice, removing a pair that occurs removes one record.
pub proof fn lemma_without_unique(s: Seq<RecordView>, svn_path: Seq<char>, git_path: Seq<char>)
    requires
        pairs_unique(s),
        has_pair(s, svn_path, git_path),
    ensures
        without_pair(s, svn_path, git_path).len() + 1 == s.len(),
    decreases s.len(),
{
    let t = s.drop_last();
    assert forall|i: int, j: int| 0 <= i < j < t.len() implies !same_pair(
        #[trigger] t[i],
        (#[trigger] t[j]).svn_path,
        t[j].git_path,
    ) by {
        assert(t[i] == s[i] && t[j] == s[j]);
    }
    if same_pair(s.last(), svn_path, git_path) {
        if has_pair(t, svn_path, git_path) {
            let i = choose|i: int|
                0 <= i < t.len() && same_pair(#[trigger] t[i], svn_path, git_path);
            assert(t[i] == s[i]);
            assert(!same_pair(s[i], s[s.len() - 1].svn_path, s[s.len() - 1].git_path));
        }
        lemma_without_pair(t, svn_path, git_path);
    } else {
        let i = choose|i: int| 0 <= i < s.len() && same_pair(#[trigger] s[i], svn_path, git_path);
        assert(same_pair(t[i], svn_path, git_path));
        lemma_without_unique(t, svn_path, git_path);
    }
}

/// Inserting a record whose pair is new keeps the pairs unique.
pub proof fn lemma_inserted_unique(s: Seq<RecordView>, r: RecordView)
    requires
        pairs_unique(s),
        !has_pair(s, r.svn_path, r.git_path),
    ensures
        pairs_unique(inserted(s, r)),
{
    lemma_inserted_shape(s, r);
    let p = choose|p: int|
        0 <= p <= s.len() && #[trigger] s.insert(p, r) == inserted(s, r) && (forall|j: int|
            p <= j < s.len() ==> !not_after(s[j].last_used, r.last_used)) && (p > 0 ==> not_after(
            s[p - 1].last_used,
            r.last_used,
        ));
    let t = s.insert(p, r);
    assert forall|i: int, j: int| 0 <= i < j < t.len() implies !same_pair(
        #[trigger] t[i],
        (#[trigger] t[j]).svn_path,
        t[j].git_path,
    ) by {
        let a = if i < p {
            i
        } else {
            i - 1
        };
        let b = if j < p {
            j
        } else {
            j - 1
        };
        if i == p {
            assert(t[j] == s[b]);
            assert(!same_pair(s[b], r.svn_path, r.git_path));
        } else if j == p {
            assert(t[i] == s[a]);
            assert(!same_pair(s[a], r.svn_path, r.git_path));
        } else {
            assert(t[i] == s[a] && t[j] == s[b]);
        }
    }
}

/// Sorting keeps the pairs unique.
pub proof fn lemma_sorted_unique(s: Seq<RecordView>)
    requires
        pairs_unique(s),
    ensures
        pairs_unique(stable_sorted(s)),
    decreases s.len(),
{
    if s.len() > 0 {
        let t = s.drop_last();
        assert forall|i: int, j: int| 0 <= i < j < t.len() implies !same_pair(
            #[trigger] t[i],
            (#[trigger] t[j]).svn_path,
            t[j].git_path,
        ) by {
            assert(t[i] == s[i] && t[j] == s[j]);
        }
        lemma_sorted_unique(t);
        let last = s.last();
        lemma_sorted_has_pair(t, last.svn_path, last.git_path);
        if has_pair(t, last.svn_path, last.git_path) {
            let i = choose|i: int|
                0 <= i < t.len() && same_pair(#[trigger] t[i], last.svn_path, last.git_path);
            assert(t[i] == s[i]);
            assert(!same_pair(s[i], s[s.len() - 1].svn_path, s[s.len() - 1].git_path));
        }
        lemma_inserted_unique(stable_sorted(t), last);
    }
}

/// Removing a pair keeps the other pairs unique.
pub proof fn lemma_without_keeps_unique(
    s: Seq<RecordView>,
    svn_path: Seq<char>,
    git_path: Seq<char>,
)
    requires
        pairs_unique(s),
    ensures
        pairs_unique(without_pair(s, svn_path, git_path)),
    decreases s.len(),
{
    if s.len() > 0 {
        let t = s.drop_last();
        assert forall|i: int, j: int| 0 <= i < j < t.len() implies !same_pair(
            #[trigger] t[i],
            (#[trigger] t[j]).svn_path,
            t[j].git_path,
        ) by {
            assert(t[i] == s[i] && t[j] == s[j]);
        }
        lemma_without_keeps_unique(t, svn_path, git_path);
        let wt = without_pair(t, svn_path, git_path);
        let w = without_pair(s, svn_path, git_path);
        if !same_pair(s.last(), svn_path, git_path) {
            lemma_without_pair(t, svn_path, git_path);
            assert forall|i: int, j: int| 0 <= i < j < w.len() implies !same_pair(
                #[trigger] w[i],
                (#[trigger] w[j]).svn_path,
                w[j].git_path,
            ) by {
                if j < wt.len() {
                    assert(w[i] == wt[i] && w[j] == wt[j]);
                } else {
                    let k = choose|k: int| 0 <= k < t.len() && t[k] == wt[i];
                    assert(s[k] == w[i]);
                    assert(!same_pair(s[k], s[s.len() - 1].svn_path, s[s.len() - 1].git_path));
                }
            }
        }
    }
}

/// Using a pair establishes the order of the list and keeps its pairs unique.
pub proof fn lemma_added_keeps_invariant(
    s: Seq<RecordView>,
    svn_path: Seq<char>,
    git_path: Seq<char>,
    now: Timestamp,
)
    requires
        pairs_unique(s),
    ensures
        history_ok(added(s, svn_path, git_path, now)),
{
    let kept = without_pair(s, svn_path, git_path);
    let r = new_record(s, svn_path, git_path, now);
    lemma_without_keeps_unique(s, svn_path, git_path);
    lemma_without_pair(s, svn_path, git_path);
    let x = kept.push(r);
    assert forall|i: int, j: int| 0 <= i < j < x.len() implies !same_pair(
        #[trigger] x[i],
        (#[trigger] x[j]).svn_path,
        x[j].git_path,
    ) by {
        if j < kept.len() {
            assert(x[i] == kept[i] && x[j] == kept[j]);
        } else {
            assert(x[i] == kept[i]);
            assert(!same_pair(kept[i], svn_path, git_path));
        }
    }
    lemma_sorted_unique(x);
    lemma_sorted_ascending(x);
}

/// Deleting a record keeps the invariant.
pub proof fn lemma_removed_keeps_invariant(s: Seq<RecordView>, index: int)
    requires
        history_ok(s),
        0 <= index < s.len(),
    ensures
        history_ok(s.remove(index)),
{
    let t = s.remove(index);
    assert forall|i: int, j: int| 0 <= i < j < t.len() implies not_after(
        t[i].last_used,
        t[j].last_used,
    ) && !same_pair(#[trigger] t[i], (#[trigger] t[j]).svn_path, t[j].git_path) by {
        let a = if i < index {
            i
        } else {
            i + 1
        };
        let b = if j < index {
            j
        } else {
            j + 1
        };
        assert(t[i] == s[a] && t[j] == s[b]);
    }
}

} // verus!
