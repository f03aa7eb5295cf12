//! The ordered task views. A view filters the store's tasks (kept in
//! insertion order) by a predicate, then sorts them by descending score,
//! stably: equal scores keep insertion order. The ordering is recomputed on
//! demand, never cached, so it cannot go stale after a mutation.

use vstd::prelude::*;

use crate::task::{quadrant_of, score_of, Quadrant, Task, TaskModel, TaskStatus};

verus! {

/// All tasks of a sequence are well-formed.
pub open spec fn all_wf(ts: Seq<TaskModel>) -> bool {
    forall|i: int| 0 <= i < ts.len() ==> (#[trigger] ts[i]).wf()
}

/// The mathematical image of a task vector.
pub open spec fn task_models(s: Seq<Task>) -> Seq<TaskModel> {
    Seq::new(s.len(), |i: int| s[i]@)
}

/// The image of an index vector.
pub open spec fn idx_views(s: Seq<usize>) -> Seq<int> {
    Seq::new(s.len(), |i: int| s[i] as int)
}

/// Visible in the session's display: on the viewed date, not dropped, in the
/// named quadrant.
pub open spec fn visible_task(m: TaskModel, date: i64, q: Quadrant) -> bool {
    m.date == date && m.status != TaskStatus::Dropped && quadrant_of(m.urgency, m.importance) == q
}

/// Pending, and on the filter date when one is given.
pub open spec fn pending_task(m: TaskModel, filter: Option<i64>) -> bool {
    m.status == TaskStatus::Pending && match filter {
        Some(d) => m.date == d,
        None => true,
    }
}

/// The indices below `k` whose task is visible, in insertion order.
pub open spec fn visible_cand(ts: Seq<TaskModel>, date: i64, q: Quadrant, k: int) -> Seq<int>
    decreases k,
{
    if k <= 0 {
        seq![]
    } else {
        visible_cand(ts, date, q, k - 1) + if 0 <= k - 1 < ts.len() && visible_task(
            ts[k - 1],
            date,
            q,
        ) {
            seq![k - 1]
        } else {
            seq![]
        }
    }
}

/// The indices below `k` whose task passes the pending filter, in order.
pub open spec fn pending_cand(ts: Seq<TaskModel>, filter: Option<i64>, k: int) -> Seq<int>
    decreases k,
{
    if k <= 0 {
        seq![]
    } else {
        pending_cand(ts, filter, k - 1) + if 0 <= k - 1 < ts.len() && pending_task(
            ts[k - 1],
            filter,
        ) {
            seq![k - 1]
        } else {
            seq![]
        }
    }
}

/// The candidates whose task scores exactly `s`, order kept.
pub open spec fn filt_score(ts: Seq<TaskModel>, cand: Seq<int>, s: int) -> Seq<int>
    decreases cand.len(),
{
    if cand.len() == 0 {
        seq![]
    } else {
        filt_score(ts, cand.drop_last(), s) + if 0 <= cand.last() < ts.len() && score_of(
            ts[cand.last()].urgency,
            ts[cand.last()].importance,
        ) == s {
            seq![cand.last()]
        } else {
            seq![]
        }
    }
}

/// The candidates bucketed by score `s` down to the lowest possible score.
pub open spec fn order_desc(ts: Seq<TaskModel>, cand: Seq<int>, s: int) -> Seq<int>
    decreases s - 4,
{
    if s < 5 {
        seq![]
    } else {
        filt_score(ts, cand, s) + order_desc(ts, cand, s - 1)
    }
}

/// The candidates sorted by descending score, stably: the concatenation of
/// the score buckets from the highest possible score down.
pub open spec fn score_order(ts: Seq<TaskModel>, cand: Seq<int>) -> Seq<int> {
    order_desc(ts, cand, 15)
}

/// The session's displayed view of a store: visible tasks of one date and
/// quadrant, sorted by descending score.
pub open spec fn view_order(ts: Seq<TaskModel>, date: i64, q: Quadrant) -> Seq<int> {
    score_order(ts, visible_cand(ts, date, q, ts.len() as int))
}

/// How many tasks the displayed view of one date and quadrant holds.
pub open spec fn view_count(ts: Seq<TaskModel>, date: i64, q: Quadrant) -> int {
    visible_cand(ts, date, q, ts.len() as int).len() as int
}

/// The score-sorted view of the pending tasks, date-filtered: what positional
/// identifiers on the command line resolve against.
pub open spec fn pending_order(ts: Seq<TaskModel>, filter: Option<i64>) -> Seq<int> {
    score_order(ts, pending_cand(ts, filter, ts.len() as int))
}

/// Dropping the last candidate drops exactly one bucketed element when its
/// score lies within the buckets taken so far.
proof fn lemma_order_desc_last(ts: Seq<TaskModel>, cand: Seq<int>, s: int)
    requires
        cand.len() > 0,
        0 <= cand.last() < ts.len(),
    ensures
        order_desc(ts, cand, s).len() == order_desc(ts, cand.drop_last(), s).len() + (if 5
            <= score_of(ts[cand.last()].urgency, ts[cand.last()].importance) <= s {
            1int
        } else {
            0int
        }),
    decreases s - 4,
{
    if s >= 5 {
        lemma_order_desc_last(ts, cand, s - 1);
    }
}

proof fn lemma_order_desc_empty(ts: Seq<TaskModel>, cand: Seq<int>, s: int)
    requires
        cand.len() == 0,
    ensures
        order_desc(ts, cand, s).len() == 0,
    decreases s - 4,
{
    if s >= 5 {
        lemma_order_desc_empty(ts, cand, s - 1);
    }
}

/// A sorted view holds exactly as many entries as its candidate list: every
/// well-formed task's score lands in exactly one bucket.
pub proof fn lemma_score_order_len(ts: Seq<TaskModel>, cand: Seq<int>)
    requires
        all_wf(ts),
        forall|j: int| 0 <= j < cand.len() ==> 0 <= #[trigger] cand[j] < ts.len(),
    ensures
        score_order(ts, cand).len() == cand.len(),
    decreases cand.len(),
{
    if cand.len() == 0 {
        lemma_order_desc_empty(ts, cand, 15);
    } else {
        let c2 = cand.drop_last();
        assert(forall|j: int| 0 <= j < c2.len() ==> 0 <= #[trigger] c2[j] < ts.len());
        lemma_score_order_len(ts, c2);
        lemma_order_desc_last(ts, cand, 15);
        let m = ts[cand.last()];
        assert(m.wf());
        assert(5 <= score_of(m.urgency, m.importance) <= 15);
    }
}

/// Every entry of a candidate list for the displayed view is in range.
proof fn lemma_visible_cand_bounds(ts: Seq<TaskModel>, date: i64, q: Quadrant, k: int)
    ensures
        forall|j: int|
            0 <= j < visible_cand(ts, date, q, k).len() ==> 0 <= #[trigger] visible_cand(
                ts,
                date,
                q,
                k,
            )[j] < ts.len(),
    decreases k,
{
    if k > 0 {
        lemma_visible_cand_bounds(ts, date, q, k - 1);
        let pre = visible_cand(ts, date, q, k - 1);
        let cur = visible_cand(ts, date, q, k);
        assert(forall|j: int| 0 <= j < pre.len() ==> cur[j] == pre[j]);
    }
}

/// The displayed view and the displayed count agree: sorting loses nothing.
pub proof fn lemma_view_order_len(ts: Seq<TaskModel>, date: i64, q: Quadrant)
    requires
        all_wf(ts),
    ensures
        view_order(ts, date, q).len() == view_count(ts, date, q),
{
    lemma_visible_cand_bounds(ts, date, q, ts.len() as int);
    lemma_score_order_len(ts, visible_cand(ts, date, q, ts.len() as int));
}

proof fn lemma_filt_score_elems(ts: Seq<TaskModel>, cand: Seq<int>, s: int)
    ensures
        forall|m: int|
            0 <= m < filt_score(ts, cand, s).len() ==> cand.contains(
                #[trigger] filt_score(ts, cand, s)[m],
            ) && 0 <= filt_score(ts, cand, s)[m] < ts.len() && score_of(
                ts[filt_score(ts, cand, s)[m]].urgency,
                ts[filt_score(ts, cand, s)[m]].importance,
            ) == s,
    decreases cand.len(),
{
    if cand.len() > 0 {
        let c2 = cand.drop_last();
        lemma_filt_score_elems(ts, c2, s);
        let f = filt_score(ts, cand, s);
        let fp = filt_score(ts, c2, s);
        assert forall|m: int| 0 <= m < f.len() implies cand.contains(#[trigger] f[m]) && 0 <= f[m]
            < ts.len() && score_of(ts[f[m]].urgency, ts[f[m]].importance) == s by {
            if m < fp.len() {
                assert(f[m] == fp[m]);
                let w = choose|w: int| 0 <= w < c2.len() && c2[w] == fp[m];
                assert(cand[w] == f[m]);
            } else {
                assert(f[m] == cand.last());
                assert(cand[cand.len() - 1] == f[m]);
            }
        }
    }
}

proof fn lemma_filt_score_has(ts: Seq<TaskModel>, cand: Seq<int>, s: int, w: int)
    requires
        0 <= w < cand.len(),
        0 <= cand[w] < ts.len(),
        score_of(ts[cand[w]].urgency, ts[cand[w]].importance) == s,
    ensures
        filt_score(ts, cand, s).contains(cand[w]),
    decreases cand.len(),
{
    let c2 = cand.drop_last();
    let f = filt_score(ts, cand, s);
    let fp = filt_score(ts, c2, s);
    if w == cand.len() - 1 {
        assert(f[fp.len() as int] == cand[w]);
        assert(f.contains(cand[w]));
    } else {
        assert(c2[w] == cand[w]);
        lemma_filt_score_has(ts, c2, s, w);
        let m = choose|m: int| 0 <= m < fp.len() && fp[m] == cand[w];
        assert(f[m] == cand[w]);
        assert(f.contains(cand[w]));
    }
}

proof fn lemma_order_desc_sorted(ts: Seq<TaskModel>, cand: Seq<int>, s: int)
    ensures
        forall|m: int|
            0 <= m < order_desc(ts, cand, s).len() ==> cand.contains(
                #[trigger] order_desc(ts, cand, s)[m],
            ) && 0 <= order_desc(ts, cand, s)[m] < ts.len() && score_of(
                ts[order_desc(ts, cand, s)[m]].urgency,
                ts[order_desc(ts, cand, s)[m]].importance,
            ) <= s,
        forall|m1: int, m2: int|
            0 <= m1 <= m2 < order_desc(ts, cand, s).len() ==> score_of(
                ts[#[trigger] order_desc(ts, cand, s)[m1]].urgency,
                ts[order_desc(ts, cand, s)[m1]].importance,
            ) >= score_of(
                ts[#[trigger] order_desc(ts, cand, s)[m2]].urgency,
                ts[order_desc(ts, cand, s)[m2]].importance,
            ),
    decreases s - 4,
{
    if s >= 5 {
        lemma_filt_score_elems(ts, cand, s);
        lemma_order_desc_sorted(ts, cand, s - 1);
        let o = order_desc(ts, cand, s);
        let f = filt_score(ts, cand, s);
        let rest = order_desc(ts, cand, s - 1);
        assert(forall|m: int| f.len() <= m < o.len() ==> o[m] == rest[m - f.len()]);
    }
}

proof fn lemma_order_desc_has(ts: Seq<TaskModel>, cand: Seq<int>, s: int, w: int)
    requires
        0 <= w < cand.len(),
        0 <= cand[w] < ts.len(),
        5 <= score_of(ts[cand[w]].urgency, ts[cand[w]].importance) <= s,
    ensures
        order_desc(ts, cand, s).contains(cand[w]),
    decreases s - 4,
{
    let o = order_desc(ts, cand, s);
    let f = filt_score(ts, cand, s);
    let rest = order_desc(ts, cand, s - 1);
    if score_of(ts[cand[w]].urgency, ts[cand[w]].importance) == s {
        lemma_filt_score_has(ts, cand, s, w);
        let m = choose|m: int| 0 <= m < f.len() && f[m] == cand[w];
        assert(o[m] == cand[w]);
        assert(o.contains(cand[w]));
    } else {
        lemma_order_desc_has(ts, cand, s - 1, w);
        let m = choose|m: int| 0 <= m < rest.len() && rest[m] == cand[w];
        assert(o[f.len() + m] == cand[w]);
        assert(o.contains(cand[w]));
    }
}

proof fn lemma_visible_cand_elems(ts: Seq<TaskModel>, date: i64, q: Quadrant, k: int)
    ensures
        forall|m: int|
            0 <= m < visible_cand(ts, date, q, k).len() ==> 0 <= #[trigger] visible_cand(
                ts,
                date,
                q,
                k,
            )[m] < ts.len() && visible_task(ts[visible_cand(ts, date, q, k)[m]], date, q),
        forall|j: int|
            0 <= j < k && j < ts.len() && visible_task(ts[j], date, q)
                ==> #[trigger] visible_cand(ts, date, q, k).contains(j),
    decreases k,
{
    if k > 0 {
        lemma_visible_cand_elems(ts, date, q, k - 1);
        let c = visible_cand(ts, date, q, k);
        let cp = visible_cand(ts, date, q, k - 1);
        assert(forall|m: int| 0 <= m < cp.len() ==> c[m] == cp[m]);
        assert forall|j: int|
            0 <= j < k && j < ts.len() && visible_task(ts[j], date, q) implies #[trigger] c.contains(
            j,
        ) by {
            if j < k - 1 {
                assert(cp.contains(j));
                let m = choose|m: int| 0 <= m < cp.len() && cp[m] == j;
                assert(c[m] == j);
            } else {
                assert(c[cp.len() as int] == j);
            }
        }
    }
}

/// Law: the displayed view holds exactly the visible tasks of its date and
/// quadrant — every entry is the position of a visible task, and every
/// visible task's position occurs in it — in descending score order (equal
/// scores keep insertion order by the bucket construction, and by
/// `lemma_view_order_len` the view and the visible set have the same size).
/// So a visible task of score fifteen precedes one of score five in any view
/// holding both.
pub proof fn lemma_view_order_exact(ts: Seq<TaskModel>, date: i64, q: Quadrant)
    requires
        all_wf(ts),
    ensures
        forall|m: int|
            0 <= m < view_order(ts, date, q).len() ==> 0 <= #[trigger] view_order(ts, date, q)[m]
                < ts.len() && visible_task(ts[view_order(ts, date, q)[m]], date, q),
        forall|j: int|
            0 <= j < ts.len() && visible_task(ts[j], date, q) ==> #[trigger] view_order(
                ts,
                date,
                q,
            ).contains(j),
        forall|m1: int, m2: int|
            0 <= m1 <= m2 < view_order(ts, date, q).len() ==> score_of(
                ts[#[trigger] view_order(ts, date, q)[m1]].urgency,
                ts[view_order(ts, date, q)[m1]].importance,
            ) >= score_of(
                ts[#[trigger] view_order(ts, date, q)[m2]].urgency,
                ts[view_order(ts, date, q)[m2]].importance,
            ),
{
    let cand = visible_cand(ts, date, q, ts.len() as int);
    lemma_visible_cand_elems(ts, date, q, ts.len() as int);
    lemma_order_desc_sorted(ts, cand, 15);
    let v = view_order(ts, date, q);
    assert forall|m: int| 0 <= m < v.len() implies 0 <= #[trigger] v[m] < ts.len()
        && visible_task(ts[v[m]], date, q) by {
        assert(cand.contains(v[m]));
        let w = choose|w: int| 0 <= w < cand.len() && cand[w] == v[m];
        assert(cand[w] == v[m]);
    }
    assert forall|j: int| 0 <= j < ts.len() && visible_task(ts[j], date, q) implies #[trigger] v.contains(
        j,
    ) by {
        assert(cand.contains(j));
        let w = choose|w: int| 0 <= w < cand.len() && cand[w] == j;
        assert(ts[j].wf());
        assert(5 <= score_of(ts[j].urgency, ts[j].importance) <= 15);
        lemma_order_desc_has(ts, cand, 15, w);
    }
}

proof fn lemma_visible_cand_congruent(
    a: Seq<TaskModel>,
    b: Seq<TaskModel>,
    date: i64,
    q: Quadrant,
    k: int,
)
    requires
        a.len() == b.len(),
        forall|i: int|
            0 <= i < a.len() ==> visible_task(#[trigger] a[i], date, q) == visible_task(
                b[i],
                date,
                q,
            ),
    ensures
        visible_cand(a, date, q, k) == visible_cand(b, date, q, k),
    decreases k,
{
    if k > 0 {
        lemma_visible_cand_congruent(a, b, date, q, k - 1);
    }
}

proof fn lemma_filt_score_congruent(
    a: Seq<TaskModel>,
    b: Seq<TaskModel>,
    cand: Seq<int>,
    s: int,
)
    requires
        a.len() == b.len(),
        forall|i: int|
            0 <= i < a.len() ==> score_of((#[trigger] a[i]).urgency, a[i].importance) == score_of(
                b[i].urgency,
                b[i].importance,
            ),
    ensures
        filt_score(a, cand, s) == filt_score(b, cand, s),
    decreases cand.len(),
{
    if cand.len() > 0 {
        lemma_filt_score_congruent(a, b, cand.drop_last(), s);
    }
}

proof fn lemma_order_desc_congruent(
    a: Seq<TaskModel>,
    b: Seq<TaskModel>,
    cand: Seq<int>,
    s: int,
)
    requires
        a.len() == b.len(),
        forall|i: int|
            0 <= i < a.len() ==> score_of((#[trigger] a[i]).urgency, a[i].importance) == score_of(
                b[i].urgency,
                b[i].importance,
            ),
    ensures
        order_desc(a, cand, s) == order_desc(b, cand, s),
    decreases s - 4,
{
    if s >= 5 {
        lemma_filt_score_congruent(a, b, cand, s);
        lemma_order_desc_congruent(a, b, cand, s - 1);
    }
}

/// Law: the displayed view depends only on each task's visibility and score.
/// A mutation that changes neither — completing a task, or undoing one —
/// leaves the view, and with it every displayed position, exactly as it was.
pub proof fn lemma_view_order_congruent(
    a: Seq<TaskModel>,
    b: Seq<TaskModel>,
    date: i64,
    q: Quadrant,
)
    requires
        a.len() == b.len(),
        forall|i: int|
            0 <= i < a.len() ==> visible_task(#[trigger] a[i], date, q) == visible_task(
                b[i],
                date,
                q,
            ) && score_of(a[i].urgency, a[i].importance) == score_of(
                b[i].urgency,
                b[i].importance,
            ),
    ensures
        view_order(a, date, q) == view_order(b, date, q),
        view_count(a, date, q) == view_count(b, date, q),
{
    lemma_visible_cand_congruent(a, b, date, q, a.len() as int);
    lemma_order_desc_congruent(a, b, visible_cand(a, date, q, a.len() as int), 15);
}

proof fn lemma_idx_push(s: Seq<usize>, x: usize)
    ensures
        idx_views(s.push(x)) == idx_views(s).push(x as int),
{
    assert(idx_views(s.push(x)) =~= idx_views(s).push(x as int));
}

/// The visible candidates of one date and quadrant, in insertion order.
pub fn visible_indices(tasks: &Vec<Task>, date: i64, q: Quadrant) -> (r: Vec<usize>)
    ensures
        idx_views(r@) == visible_cand(task_models(tasks@), date, q, tasks@.len() as int),
        forall|j: int| 0 <= j < r@.len() ==> (#[trigger] r@[j]) < tasks@.len(),
{
    let n = tasks.len();
    let mut r: Vec<usize> = Vec::new();
    let mut i: usize = 0;
    proof {
        assert(idx_views(r@) =~= Seq::<int>::empty());
    }
    while i < n
        invariant
            i <= n == tasks@.len(),
            idx_views(r@) == visible_cand(task_models(tasks@), date, q, i as int),
            forall|j: int| 0 <= j < r@.len() ==> (#[trigger] r@[j]) < tasks@.len(),
        decreases n - i,
    {
        let t = &tasks[i];
        let ghost ts = task_models(tasks@);
        let q_of = t.quadrant();
        let is_vis = t.date == date && t.status != TaskStatus::Dropped && q_of == q;
        if is_vis {
            proof {
                lemma_idx_push(r@, i);
                assert(visible_cand(ts, date, q, i + 1) =~= visible_cand(ts, date, q, i as int)
                    + seq![i as int]);
            }
            r.push(i);
        } else {
            proof {
                assert(visible_cand(ts, date, q, i + 1) =~= visible_cand(ts, date, q, i as int));
            }
        }
        i = i + 1;
    }
    r
}

/// The pending candidates under a date filter, in insertion order.
pub fn pending_indices(tasks: &Vec<Task>, filter: Option<i64>) -> (r: Vec<usize>)
    ensures
        idx_views(r@) == pending_cand(task_models(tasks@), filter, tasks@.len() as int),
        forall|j: int| 0 <= j < r@.len() ==> (#[trigger] r@[j]) < tasks@.len(),
{
    let n = tasks.len();
    let mut r: Vec<usize> = Vec::new();
    let mut i: usize = 0;
    proof {
        assert(idx_views(r@) =~= Seq::<int>::empty());
    }
    while i < n
        invariant
            i <= n == tasks@.len(),
            idx_views(r@) == pending_cand(task_models(tasks@), filter, i as int),
            forall|j: int| 0 <= j < r@.len() ==> (#[trigger] r@[j]) < tasks@.len(),
        decreases n - i,
    {
        let t = &tasks[i];
        let ghost ts = task_models(tasks@);
        let date_ok = match filter {
            Some(d) => t.date == d,
            None => true,
        };
        let is_pending = t.status == TaskStatus::Pending && date_ok;
        if is_pending {
            proof {
                lemma_idx_push(r@, i);
                assert(pending_cand(ts, filter, i + 1) =~= pending_cand(ts, filter, i as int)
                    + seq![i as int]);
            }
            r.push(i);
        } else {
            proof {
                assert(pending_cand(ts, filter, i + 1) =~= pending_cand(ts, filter, i as int));
            }
        }
        i = i + 1;
    }
    r
}

/// Sort candidates by descending score, stably, by bucketing from the
/// highest possible score down.
pub fn sort_by_score(tasks: &Vec<Task>, cand: &Vec<usize>) -> (r: Vec<usize>)
    requires
        all_wf(task_models(tasks@)),
        forall|j: int| 0 <= j < cand@.len() ==> (#[trigger] cand@[j]) < tasks@.len(),
    ensures
        idx_views(r@) == score_order(task_models(tasks@), idx_views(cand@)),
        forall|j: int| 0 <= j < r@.len() ==> (#[trigger] r@[j]) < tasks@.len(),
{
    let ghost ts = task_models(tasks@);
    let ghost cv = idx_views(cand@);
    let m = cand.len();
    let mut r: Vec<usize> = Vec::new();
    let mut s: u8 = 15;
    proof {
        assert(idx_views(r@) =~= Seq::<int>::empty());
        assert(Seq::<int>::empty() + order_desc(ts, cv, 15) =~= order_desc(ts, cv, 15));
    }
    while s >= 5
        invariant
            4 <= s <= 15,
            m == cand@.len(),
            ts == task_models(tasks@),
            cv == idx_views(cand@),
            all_wf(ts),
            forall|j: int| 0 <= j < cand@.len() ==> (#[trigger] cand@[j]) < tasks@.len(),
            forall|j: int| 0 <= j < r@.len() ==> (#[trigger] r@[j]) < tasks@.len(),
            idx_views(r@) + order_desc(ts, cv, s as int) == order_desc(ts, cv, 15),
        decreases s,
    {
        let ghost before = idx_views(r@);
        let mut j: usize = 0;
        proof {
            assert(cv.subrange(0, 0) =~= Seq::<int>::empty());
            assert(filt_score(ts, cv.subrange(0, 0), s as int) =~= Seq::<int>::empty());
            assert(before + filt_score(ts, cv.subrange(0, 0), s as int) =~= before);
        }
        while j < m
            invariant
                j <= m == cand@.len(),
                4 <= s <= 15,
                ts == task_models(tasks@),
                cv == idx_views(cand@),
                all_wf(ts),
                forall|jj: int| 0 <= jj < cand@.len() ==> (#[trigger] cand@[jj]) < tasks@.len(),
                forall|jj: int| 0 <= jj < r@.len() ==> (#[trigger] r@[jj]) < tasks@.len(),
                idx_views(r@) == before + filt_score(ts, cv.subrange(0, j as int), s as int),
            decreases m - j,
        {
            let c = cand[j];
            proof {
                let pre1 = cv.subrange(0, j + 1);
                assert(pre1.drop_last() =~= cv.subrange(0, j as int));
                assert(pre1.last() == cand@[j as int] as int);
                assert(ts[cand@[j as int] as int] == tasks@[cand@[j as int] as int]@);
            }
            if tasks[c].score() == s {
                proof {
                    lemma_idx_push(r@, c);
                    assert(before + filt_score(ts, cv.subrange(0, j + 1), s as int) =~= (before
                        + filt_score(ts, cv.subrange(0, j as int), s as int)).push(c as int));
                }
                r.push(c);
            } else {
                proof {
                    assert(filt_score(ts, cv.subrange(0, j + 1), s as int) =~= filt_score(
                        ts,
                        cv.subrange(0, j as int),
                        s as int,
                    ));
                }
            }
            j = j + 1;
        }
        proof {
            assert(cv.subrange(0, m as int) =~= cv);
            assert(order_desc(ts, cv, s as int) == filt_score(ts, cv, s as int) + order_desc(
                ts,
                cv,
                s as int - 1,
            ));
            assert(idx_views(r@) + order_desc(ts, cv, s as int - 1) =~= before + order_desc(
                ts,
                cv,
                s as int,
            ));
        }
        s = s - 1;
    }
    proof {
        assert(order_desc(ts, cv, 4) =~= Seq::<int>::empty());
        assert(idx_views(r@) =~= idx_views(r@) + order_desc(ts, cv, 4));
    }
    r
}

/// The displayed view of one date and quadrant: indices into the task
/// vector, sorted by descending score, stably.
pub fn ordered_visible(tasks: &Vec<Task>, date: i64, q: Quadrant) -> (r: Vec<usize>)
    requires
        all_wf(task_models(tasks@)),
    ensures
        idx_views(r@) == view_order(task_models(tasks@), date, q),
        forall|j: int| 0 <= j < r@.len() ==> (#[trigger] r@[j]) < tasks@.len(),
{
    let cand = visible_indices(tasks, date, q);
    sort_by_score(tasks, &cand)
}

/// The pending view under a date filter, sorted by descending score.
pub fn ordered_pending(tasks: &Vec<Task>, filter: Option<i64>) -> (r: Vec<usize>)
    requires
        all_wf(task_models(tasks@)),
    ensures
        idx_views(r@) == pending_order(task_models(tasks@), filter),
        forall|j: int| 0 <= j < r@.len() ==> (#[trigger] r@[j]) < tasks@.len(),
{
    let cand = pending_indices(tasks, filter);
    sort_by_score(tasks, &cand)
}

/// How many tasks one date and quadrant displays.
pub fn count_visible(tasks: &Vec<Task>, date: i64, q: Quadrant) -> (r: usize)
    ensures
        r == view_count(task_models(tasks@), date, q),
{
    let cand = visible_indices(tasks, date, q);
    cand.len()
}

} // verus!
