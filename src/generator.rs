use vstd::prelude::*;

use crate::reminder::Reminder;
use crate::task::{NewTask, Task};
use crate::text::{clone_text, opt_text};

verus! {

/// Why catch-up could not run.
#[derive(Debug, PartialEq, Eq, Structural)]
pub enum CatchUpError {
    /// A task generated by an active reminder carries no due time: the stored
    /// data is corrupt.
    MissingDue,
}

/// The due times `first`, `first + period`, `first + 2 * period`, ... that lie
/// strictly before `limit`.
pub open spec fn occurrences(first: int, period: int, limit: int) -> Seq<int>
    decreases (if period > 0 && first < limit { limit - first } else { 0 }),
{
    if period > 0 && first < limit {
        seq![first] + occurrences(first + period, period, limit)
    } else {
        Seq::empty()
    }
}

/// The due times of the occurrences of `r` that catch-up at `now` considers:
/// all of them up to the one that falls within one period after `now`.
pub open spec fn occurrences_at(r: Reminder, now: int) -> Seq<int> {
    occurrences(r.first_due as int, r.period as int, now + r.period)
}

/// Whether `t` was generated by the reminder with id `id`.
pub open spec fn generated_by(t: Task, id: u64) -> bool {
    t.generated_by == Some(id)
}

/// Whether `tasks` holds a task generated by reminder `id` and due at `due`.
pub open spec fn has_occurrence(tasks: Seq<Task>, id: u64, due: int) -> bool {
    exists|j: int|
        0 <= j < tasks.len() && generated_by(#[trigger] tasks[j], id) && tasks[j].due is Some
            && tasks[j].due->0 == due
}

/// Whether `tasks` holds a task generated by reminder `id` without a due time.
pub open spec fn lacks_due(tasks: Seq<Task>, id: u64) -> bool {
    exists|j: int| 0 <= j < tasks.len() && generated_by(#[trigger] tasks[j], id) && tasks[j].due is None
}

/// The due times in `occ` for which `tasks` holds no task of reminder `id`,
/// in the order of `occ`.
pub open spec fn missing_dues(occ: Seq<int>, tasks: Seq<Task>, id: u64) -> Seq<int>
    decreases occ.len(),
{
    if occ.len() == 0 {
        Seq::empty()
    } else {
        let rest = missing_dues(occ.drop_last(), tasks, id);
        if has_occurrence(tasks, id, occ.last()) {
            rest
        } else {
            rest.push(occ.last())
        }
    }
}

/// `t` is the task that reminder `r` generates for its occurrence due at
/// `due`: it starts one period earlier, when the previous occurrence was due.
pub open spec fn is_occurrence_task(t: NewTask, r: Reminder, due: int) -> bool {
    &&& t.title@ == r.title@
    &&& opt_text(t.description) == opt_text(r.description)
    &&& t.start is Some && t.start->0 == due - r.period
    &&& t.due is Some && t.due->0 == due
    &&& t.generated_by == Some(r.id)
}

fn is_generated_by(t: &Task, id: u64) -> (r: bool)
    ensures
        r == generated_by(*t, id),
{
    match t.generated_by {
        Some(g) => g == id,
        None => false,
    }
}

/// Whether `tasks` holds a task generated by reminder `id` and due at `due`.
pub fn has_task_due(tasks: &Vec<Task>, id: u64, due: i64) -> (r: bool)
    ensures
        r == has_occurrence(tasks@, id, due as int),
{
    let mut j: usize = 0;
    while j < tasks.len()
        invariant
            j <= tasks.len(),
            forall|i: int|
                0 <= i < j ==> !(generated_by(#[trigger] tasks@[i], id) && tasks@[i].due is Some
                    && tasks@[i].due->0 == due),
        decreases tasks.len() - j,
    {
        if is_generated_by(&tasks[j], id) {
            match tasks[j].due {
                Some(d) => {
                    if d == due {
                        return true;
                    }
                },
                None => {},
            }
        }
        j += 1;
    }
    false
}

/// Whether `tasks` holds a task generated by reminder `id` without a due time.
pub fn has_task_without_due(tasks: &Vec<Task>, id: u64) -> (r: bool)
    ensures
        r == lacks_due(tasks@, id),
{
    let mut j: usize = 0;
    while j < tasks.len()
        invariant
            j <= tasks.len(),
            forall|i: int| 0 <= i < j ==> !(generated_by(#[trigger] tasks@[i], id) && tasks@[i].due is None),
        decreases tasks.len() - j,
    {
        if is_generated_by(&tasks[j], id) && tasks[j].due.is_none() {
            return true;
        }
        j += 1;
    }
    false
}

/// The tasks that catch-up at `now` inserts for `reminder`, given the stored
/// `tasks`: one for each occurrence up to one period after `now` that has no
/// generated task with that due time yet, in the order of their due times.
pub fn reminder_tasks(reminder: &Reminder, tasks: &Vec<Task>, now: i64) -> (r: Result<
    Vec<NewTask>,
    CatchUpError,
>)
    requires
        reminder.wf(),
        now + reminder.period <= i64::MAX,
    ensures
        r is Err <==> lacks_due(tasks@, reminder.id),
        r matches Ok(v) ==> ({
            let m = missing_dues(occurrences_at(*reminder, now as int), tasks@, reminder.id);
            &&& v@.len() == m.len()
            &&& forall|k: int| 0 <= k < m.len() ==> is_occurrence_task(#[trigger] v@[k], *reminder, m[k])
        }),
{
    if has_task_without_due(tasks, reminder.id) {
        return Err(CatchUpError::MissingDue);
    }
    let period: i128 = reminder.period as i128;
    let limit: i128 = now as i128 + period;
    let mut due: i128 = reminder.first_due as i128;
    let mut out: Vec<NewTask> = Vec::new();
    let ghost all = occurrences_at(*reminder, now as int);
    let ghost mut seen: Seq<int> = Seq::empty();
    while due < limit
        invariant
            reminder.wf(),
            period == reminder.period,
            limit == now + period,
            limit <= i64::MAX,
            reminder.first_due <= due,
            period > 0,
            due <= i64::MAX + period,
            all == seen + occurrences(due as int, period as int, limit as int),
            out@.len() == missing_dues(seen, tasks@, reminder.id).len(),
            forall|k: int|
                0 <= k < out@.len() ==> is_occurrence_task(
                    #[trigger] out@[k],
                    *reminder,
                    missing_dues(seen, tasks@, reminder.id)[k],
                ),
        decreases limit + period - due,
    {
        let ghost prev = seen;
        proof {
            seen = seen.push(due as int);
            assert(seen.drop_last() =~= prev);
            assert(all =~= seen + occurrences(due + period, period as int, limit as int));
        }
        if !has_task_due(tasks, reminder.id, due as i64) {
            let t = NewTask {
                title: reminder.title.clone(),
                description: clone_text(&reminder.description),
                start: Some((due - period) as i64),
                due: Some(due as i64),
                generated_by: Some(reminder.id),
            };
            out.push(t);
        }
        due = due + period;
    }
    proof {
        assert(all =~= seen);
    }
    Ok(out)
}

/// Whether catch-up at `now` runs on `r`: the reminder is active.
pub open spec fn in_catch_up(r: Reminder, now: int) -> bool {
    r.active_at(now)
}

/// Whether catch-up can run on every reminder of `reminders` that is active
/// at `now`: each is well formed, and the window that ends one period after
/// `now` is made of representable timestamps.
pub open spec fn catch_up_ready(reminders: Seq<Reminder>, now: int) -> bool {
    forall|i: int|
        0 <= i < reminders.len() && (#[trigger] reminders[i]).active_at(now) ==> reminders[i].wf()
            && now + reminders[i].period <= i64::MAX
}

/// The occurrences that catch-up at `now` inserts, as pairs of the index of
/// the reminder in `reminders` and the due time: reminder by reminder, and
/// for each in the order of due times.
pub open spec fn catch_up_plan(reminders: Seq<Reminder>, tasks: Seq<Task>, now: int) -> Seq<
    (int, int),
>
    decreases reminders.len(),
{
    if reminders.len() == 0 {
        Seq::empty()
    } else {
        let n = reminders.len() - 1;
        let rest = catch_up_plan(reminders.drop_last(), tasks, now);
        let r = reminders.last();
        if in_catch_up(r, now) {
            rest + missing_dues(occurrences_at(r, now), tasks, r.id).map_values(|d: int| (n, d))
        } else {
            rest
        }
    }
}

/// Whether catch-up at `now` meets a corrupt task: one generated by a
/// reminder that it runs on, without a due time.
pub open spec fn catch_up_fails(reminders: Seq<Reminder>, tasks: Seq<Task>, now: int) -> bool {
    exists|i: int|
        0 <= i < reminders.len() && in_catch_up(#[trigger] reminders[i], now) && lacks_due(
            tasks,
            reminders[i].id,
        )
}

/// The tasks that catch-up at `now` inserts for all `reminders`, given the
/// stored `tasks`: for each active reminder, in order, the tasks of its
/// missing occurrences.
pub fn reminders_to_tasks(reminders: &Vec<Reminder>, tasks: &Vec<Task>, now: i64) -> (r: Result<
    Vec<NewTask>,
    CatchUpError,
>)
    requires
        catch_up_ready(reminders@, now as int),
    ensures
        r is Err <==> catch_up_fails(reminders@, tasks@, now as int),
        r matches Ok(v) ==> ({
            let plan = catch_up_plan(reminders@, tasks@, now as int);
            &&& v@.len() == plan.len()
            &&& forall|k: int|
                0 <= k < plan.len() ==> 0 <= plan[k].0 < reminders@.len() && is_occurrence_task(
                    #[trigger] v@[k],
                    reminders@[plan[k].0],
                    plan[k].1,
                )
        }),
{
    let mut out: Vec<NewTask> = Vec::new();
    let mut i: usize = 0;
    while i < reminders.len()
        invariant
            i <= reminders.len(),
            catch_up_ready(reminders@, now as int),
            !catch_up_fails(reminders@.take(i as int), tasks@, now as int),
            out@.len() == catch_up_plan(reminders@.take(i as int), tasks@, now as int).len(),
            forall|k: int|
                0 <= k < out@.len() ==> ({
                    let p = #[trigger] catch_up_plan(reminders@.take(i as int), tasks@, now as int)[k];
                    0 <= p.0 < i && is_occurrence_task(out@[k], reminders@[p.0], p.1)
                }),
        decreases reminders.len() - i,
    {
        let ghost prefix = reminders@.take(i as int);
        let ghost next = reminders@.take(i + 1);
        proof {
            assert(next.drop_last() =~= prefix);
            assert(next.last() == reminders@[i as int]);
        }
        let reminder = &reminders[i];
        if reminder.is_active(now) {
            proof {
                assert(reminders@[i as int].wf());
            }
            match reminder_tasks(reminder, tasks, now) {
                Ok(mut v) => {
                    let ghost old_out = out@;
                    let ghost added = v@;
                    let ghost m = missing_dues(occurrences_at(*reminder, now as int), tasks@, reminder.id);
                    let ghost mapped = m.map_values(|d: int| (i as int, d));
                    out.append(&mut v);
                    proof {
                        assert(catch_up_plan(next, tasks@, now as int) == catch_up_plan(prefix, tasks@, now as int) + mapped);
                        assert forall|k: int| 0 <= k < out@.len() implies ({
                            let p = #[trigger] catch_up_plan(next, tasks@, now as int)[k];
                            0 <= p.0 < i + 1 && is_occurrence_task(out@[k], reminders@[p.0], p.1)
                        }) by {
                            if k >= old_out.len() {
                                let kk = k - old_out.len();
                                assert(out@[k] == added[kk]);
                            }
                        }
                        assert forall|j: int| 0 <= j < next.len() && in_catch_up(#[trigger] next[j], now as int)
                            implies !lacks_due(tasks@, next[j].id) by {
                            if j < i {
                                assert(prefix[j] == next[j]);
                            }
                        }
                    }
                },
                Err(e) => {
                    proof {
                        assert(reminders@[i as int] == *reminder);
                    }
                    return Err(e);
                },
            }
        } else {
            proof {
                assert forall|j: int| 0 <= j < next.len() && in_catch_up(#[trigger] next[j], now as int)
                    implies !lacks_due(tasks@, next[j].id) by {
                    assert(prefix[j] == next[j]);
                }
            }
        }
        i += 1;
    }
    proof {
        assert(reminders@.take(i as int) =~= reminders@);
    }
    Ok(out)
}

/// Each occurrence in `occ` either has its task in `tasks` or is among the
/// missing ones.
proof fn lemma_missing_covers(occ: Seq<int>, tasks: Seq<Task>, id: u64)
    ensures
        forall|j: int|
            0 <= j < occ.len() ==> has_occurrence(tasks, id, #[trigger] occ[j]) || missing_dues(
                occ,
                tasks,
                id,
            ).contains(occ[j]),
    decreases occ.len(),
{
    if occ.len() > 0 {
        lemma_missing_covers(occ.drop_last(), tasks, id);
        let rest = missing_dues(occ.drop_last(), tasks, id);
        assert forall|j: int| 0 <= j < occ.len() implies has_occurrence(tasks, id, #[trigger] occ[j])
            || missing_dues(occ, tasks, id).contains(occ[j]) by {
            if j < occ.len() - 1 {
                assert(occ.drop_last()[j] == occ[j]);
                if rest.contains(occ[j]) {
                    let w = choose|w: int| 0 <= w < rest.len() && rest[w] == occ[j];
                    if !has_occurrence(tasks, id, occ.last()) {
                        assert(rest.push(occ.last())[w] == occ[j]);
                    }
                }
            } else if !has_occurrence(tasks, id, occ[j]) {
                assert(rest.push(occ.last())[rest.len() as int] == occ[j]);
            }
        }
    }
}

/// When every occurrence in `occ` has its task in `tasks`, none is missing.
proof fn lemma_none_missing(occ: Seq<int>, tasks: Seq<Task>, id: u64)
    requires
        forall|j: int| 0 <= j < occ.len() ==> has_occurrence(tasks, id, #[trigger] occ[j]),
    ensures
        missing_dues(occ, tasks, id).len() == 0,
    decreases occ.len(),
{
    if occ.len() > 0 {
        assert forall|j: int| 0 <= j < occ.drop_last().len() implies has_occurrence(
            tasks,
            id,
            #[trigger] occ.drop_last()[j],
        ) by {
            assert(occ.drop_last()[j] == occ[j]);
        }
        lemma_none_missing(occ.drop_last(), tasks, id);
        assert(has_occurrence(tasks, id, occ[occ.len() - 1]));
    }
}

/// The plan holds every missing occurrence of every reminder that catch-up
/// runs on.
proof fn lemma_plan_covers(reminders: Seq<Reminder>, tasks: Seq<Task>, now: int)
    ensures
        forall|i: int, j: int|
            0 <= i < reminders.len() && in_catch_up(reminders[i], now) && 0 <= j < missing_dues(
                occurrences_at(reminders[i], now),
                tasks,
                reminders[i].id,
            ).len() ==> catch_up_plan(reminders, tasks, now).contains(
                (i, #[trigger] missing_dues(occurrences_at(reminders[i], now), tasks, reminders[i].id)[j]),
            ),
    decreases reminders.len(),
{
    if reminders.len() > 0 {
        let n = reminders.len() - 1;
        let prefix = reminders.drop_last();
        lemma_plan_covers(prefix, tasks, now);
        let rest = catch_up_plan(prefix, tasks, now);
        let plan = catch_up_plan(reminders, tasks, now);
        assert forall|i: int, j: int|
            0 <= i < reminders.len() && in_catch_up(reminders[i], now) && 0 <= j < missing_dues(
                occurrences_at(reminders[i], now),
                tasks,
                reminders[i].id,
            ).len() implies plan.contains(
            (i, #[trigger] missing_dues(occurrences_at(reminders[i], now), tasks, reminders[i].id)[j]),
        ) by {
            let m = missing_dues(occurrences_at(reminders[i], now), tasks, reminders[i].id);
            if i < n {
                assert(prefix[i] == reminders[i]);
                assert(rest.contains((i, m[j])));
                let w = choose|w: int| 0 <= w < rest.len() && rest[w] == (i, m[j]);
                if in_catch_up(reminders.last(), now) {
                    let last_m = missing_dues(occurrences_at(reminders.last(), now), tasks, reminders.last().id);
                    assert((rest + last_m.map_values(|d: int| (n, d)))[w] == (i, m[j]));
                }
            } else {
                let mapped = m.map_values(|d: int| (n, d));
                assert(plan == rest + mapped);
                assert(plan[rest.len() + j] == (i, m[j]));
            }
        }
    }
}

/// When no reminder that catch-up runs on misses an occurrence, the plan is
/// empty.
proof fn lemma_plan_empty(reminders: Seq<Reminder>, tasks: Seq<Task>, now: int)
    requires
        forall|i: int|
            0 <= i < reminders.len() && in_catch_up(#[trigger] reminders[i], now) ==> missing_dues(
                occurrences_at(reminders[i], now),
                tasks,
                reminders[i].id,
            ).len() == 0,
    ensures
        catch_up_plan(reminders, tasks, now).len() == 0,
    decreases reminders.len(),
{
    if reminders.len() > 0 {
        let prefix = reminders.drop_last();
        assert forall|i: int| 0 <= i < prefix.len() && in_catch_up(#[trigger] prefix[i], now) implies missing_dues(
            occurrences_at(prefix[i], now),
            tasks,
            prefix[i].id,
        ).len() == 0 by {
            assert(prefix[i] == reminders[i]);
        }
        lemma_plan_empty(prefix, tasks, now);
        assert(reminders.last() == reminders[reminders.len() - 1]);
    }
}

/// Catch-up is idempotent: once the tasks that catch-up at `now` plans are
/// stored beside `tasks` (each with the generating reminder's id and the
/// occurrence's due time), catch-up at the same `now` plans nothing more and
/// does not fail.
pub proof fn lemma_catch_up_idempotent(
    reminders: Seq<Reminder>,
    tasks: Seq<Task>,
    now: int,
    stored: Seq<Task>,
)
    requires
        !catch_up_fails(reminders, tasks, now),
        stored.len() == catch_up_plan(reminders, tasks, now).len(),
        forall|k: int|
            0 <= k < stored.len() ==> {
                let p = catch_up_plan(reminders, tasks, now)[k];
                &&& generated_by(#[trigger] stored[k], reminders[p.0].id)
                &&& stored[k].due is Some
                &&& stored[k].due->0 == p.1
            },
    ensures
        !catch_up_fails(reminders, tasks + stored, now),
        catch_up_plan(reminders, tasks + stored, now).len() == 0,
{
    let all = tasks + stored;
    let plan = catch_up_plan(reminders, tasks, now);
    lemma_plan_covers(reminders, tasks, now);
    assert forall|i: int| 0 <= i < reminders.len() && in_catch_up(#[trigger] reminders[i], now) implies missing_dues(
        occurrences_at(reminders[i], now),
        all,
        reminders[i].id,
    ).len() == 0 by {
        let r = reminders[i];
        let occ = occurrences_at(r, now);
        let m = missing_dues(occ, tasks, r.id);
        lemma_missing_covers(occ, tasks, r.id);
        assert forall|j: int| 0 <= j < occ.len() implies has_occurrence(all, r.id, #[trigger] occ[j]) by {
            if has_occurrence(tasks, r.id, occ[j]) {
                let w = choose|w: int|
                    0 <= w < tasks.len() && generated_by(#[trigger] tasks[w], r.id) && tasks[w].due is Some
                        && tasks[w].due->0 == occ[j];
                assert(all[w] == tasks[w]);
            } else {
                assert(m.contains(occ[j]));
                let jm = choose|jm: int| 0 <= jm < m.len() && m[jm] == occ[j];
                assert(plan.contains((i, m[jm])));
                let k = choose|k: int| 0 <= k < plan.len() && plan[k] == (i, m[jm]);
                assert(all[tasks.len() + k] == stored[k]);
                assert(generated_by(all[tasks.len() + k], r.id));
            }
        }
        lemma_none_missing(occ, all, r.id);
    }
    lemma_plan_empty(reminders, all, now);
    assert forall|i: int| 0 <= i < reminders.len() && in_catch_up(#[trigger] reminders[i], now) implies !lacks_due(
        all,
        reminders[i].id,
    ) by {
        assert(!lacks_due(tasks, reminders[i].id));
        if lacks_due(all, reminders[i].id) {
            let w = choose|w: int| 0 <= w < all.len() && generated_by(#[trigger] all[w], reminders[i].id) && all[w].due is None;
            if w < tasks.len() {
                assert(all[w] == tasks[w]);
            } else {
                assert(all[w] == stored[w - tasks.len()]);
            }
        }
    }
}

/// The occurrences before `limit` are `first + i * period` for `i < n`,
/// where `n` is the number of the first occurrence at or after `limit`.
pub proof fn lemma_occurrences_closed(first: int, period: int, limit: int, n: nat)
    requires
        period > 0,
        limit <= first + n * period,
        n == 0 || first + (n - 1) * period < limit,
    ensures
        occurrences(first, period, limit) == Seq::new(n, |i: int| first + i * period),
    decreases n,
{
    if n == 0 {
        assert(occurrences(first, period, limit) =~= Seq::new(n, |i: int| first + i * period));
    } else {
        assert((n - 1) * period >= 0) by (nonlinear_arith)
            requires
                n >= 1,
                period > 0,
        ;
        assert(first + period + (n - 1) * period == first + n * period) by (nonlinear_arith);
        if n >= 2 {
            assert(first + period + (n - 2) * period == first + (n - 1) * period) by (nonlinear_arith);
        }
        lemma_occurrences_closed(first + period, period, limit, (n - 1) as nat);
        let tail = Seq::new((n - 1) as nat, |i: int| first + period + i * period);
        assert forall|i: int| 0 <= i < n implies (seq![first] + tail)[i] == first + i * period by {
            if i > 0 {
                assert(first + period + (i - 1) * period == first + i * period) by (nonlinear_arith);
            }
        }
        assert(occurrences(first, period, limit) =~= Seq::new(n, |i: int| first + i * period));
    }
}

/// With no task stored, every occurrence is missing.
proof fn lemma_all_missing(occ: Seq<int>, id: u64)
    ensures
        missing_dues(occ, Seq::empty(), id) == occ,
    decreases occ.len(),
{
    if occ.len() > 0 {
        lemma_all_missing(occ.drop_last(), id);
        assert(occ.drop_last().push(occ.last()) =~= occ);
    }
}

/// A reminder with first due time `d0` and period `p`, caught up for the
/// first time at `now == d0 + k * p`, gets exactly the occurrences
/// `0..=k`, occurrence `i` due at `d0 + i * p`.
pub proof fn lemma_first_catch_up_on_boundary(r: Reminder, now: int, k: nat)
    requires
        r.wf(),
        r.active_at(now),
        now == r.first_due + k * r.period,
    ensures
        catch_up_plan(seq![r], Seq::empty(), now) == Seq::new(
            k + 1,
            |i: int| (0int, r.first_due + i * r.period),
        ),
{
    let p = r.period as int;
    let d0 = r.first_due as int;
    assert(now + p == d0 + (k + 1) * p) by (nonlinear_arith)
        requires
            now == d0 + k * p,
    ;
    lemma_occurrences_closed(d0, p, now + p, k + 1);
    let occ = occurrences_at(r, now);
    lemma_all_missing(occ, r.id);
    assert(seq![r].drop_last() =~= Seq::<Reminder>::empty());
    assert(seq![r].last() == r);
    assert(catch_up_plan(Seq::<Reminder>::empty(), Seq::empty(), now) =~= Seq::empty());
    assert(catch_up_plan(seq![r], Seq::empty(), now) =~= occ.map_values(|d: int| (0int, d)));
    assert(catch_up_plan(seq![r], Seq::empty(), now) =~= Seq::new(
        k + 1,
        |i: int| (0int, r.first_due + i * r.period),
    ));
}

/// Between two due times, `d0 + k * p < now < d0 + (k + 1) * p`, the first
/// catch-up also creates the next occurrence: occurrences `0..=k + 1`.
pub proof fn lemma_first_catch_up_between(r: Reminder, now: int, k: nat)
    requires
        r.wf(),
        r.active_at(now),
        r.first_due + k * r.period < now < r.first_due + (k + 1) * r.period,
    ensures
        catch_up_plan(seq![r], Seq::empty(), now) == Seq::new(
            k + 2,
            |i: int| (0int, r.first_due + i * r.period),
        ),
{
    let p = r.period as int;
    let d0 = r.first_due as int;
    assert(d0 + (k + 1) * p == d0 + k * p + p && d0 + (k + 2) * p == d0 + (k + 1) * p + p)
        by (nonlinear_arith);
    lemma_occurrences_closed(d0, p, now + p, k + 2);
    let occ = occurrences_at(r, now);
    lemma_all_missing(occ, r.id);
    assert(seq![r].drop_last() =~= Seq::<Reminder>::empty());
    assert(seq![r].last() == r);
    assert(catch_up_plan(Seq::<Reminder>::empty(), Seq::empty(), now) =~= Seq::empty());
    assert(catch_up_plan(seq![r], Seq::empty(), now) =~= occ.map_values(|d: int| (0int, d)));
    assert(catch_up_plan(seq![r], Seq::empty(), now) =~= Seq::new(
        k + 2,
        |i: int| (0int, r.first_due + i * r.period),
    ));
}

/// Catch-up at `now` generates tasks only for reminders that are active at
/// `now`: one whose `until` is at or before `now` gets none.
pub proof fn lemma_plan_only_active(reminders: Seq<Reminder>, tasks: Seq<Task>, now: int)
    ensures
        forall|k: int|
            0 <= k < catch_up_plan(reminders, tasks, now).len() ==> {
                let p = #[trigger] catch_up_plan(reminders, tasks, now)[k];
                0 <= p.0 < reminders.len() && reminders[p.0].active_at(now)
            },
    decreases reminders.len(),
{
    if reminders.len() > 0 {
        let n = reminders.len() - 1;
        let prefix = reminders.drop_last();
        lemma_plan_only_active(prefix, tasks, now);
        let rest = catch_up_plan(prefix, tasks, now);
        let plan = catch_up_plan(reminders, tasks, now);
        assert forall|k: int| 0 <= k < plan.len() implies {
            let p = #[trigger] plan[k];
            0 <= p.0 < reminders.len() && reminders[p.0].active_at(now)
        } by {
            if k < rest.len() {
                let p = rest[k];
                assert(prefix[p.0] == reminders[p.0]);
                if in_catch_up(reminders.last(), now) {
                    let last_m = missing_dues(occurrences_at(reminders.last(), now), tasks, reminders.last().id);
                    assert(plan[k] == (rest + last_m.map_values(|d: int| (n, d)))[k]);
                }
            } else {
                assert(reminders.last() == reminders[n]);
            }
        }
    }
}

} // verus!
