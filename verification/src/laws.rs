//! What holds of a timer whatever is done with it: the order in which
//! deadlines resolve, what becomes of ties, of deadlines already reached,
//! and of futures that were discarded.

use crate::time::Timestamp;
use crate::timer::{
    due_after, due_by, holds_id, in_resolution_order, lemma_filter_keeps_all, lemma_remove_by_id,
    lemma_split_by_deadline, of_different_futures, other_than, resolves_before, state_of,
    TimerEntry, TimerView, WaitFutureView, WaitState,
};
use vstd::prelude::*;

verus! {

/// A queue in resolution order falls into the entries due by `t`, which
/// come first, and the later ones: `k` is where the second part begins.
pub proof fn lemma_due_prefix(q: Seq<TimerEntry>, t: Timestamp) -> (k: int)
    requires
        in_resolution_order(q),
    ensures
        0 <= k <= q.len(),
        forall|i: int| 0 <= i < k ==> (#[trigger] q[i]).deadline.nanos <= t.nanos,
        forall|i: int| k <= i < q.len() ==> (#[trigger] q[i]).deadline.nanos > t.nanos,
        q.filter(due_by(t)) == q.take(k),
        q.filter(due_after(t)) == q.skip(k),
    decreases q.len(),
{
    let k = if q.len() == 0 {
        0
    } else if q.last().deadline.nanos <= t.nanos {
        assert forall|i: int| 0 <= i < q.len() implies (#[trigger] q[i]).deadline.nanos
            <= t.nanos by {
            if i < q.len() - 1 {
                assert(resolves_before(q[i], q[q.len() - 1]));
            }
        }
        q.len() as int
    } else {
        let init = q.drop_last();
        assert forall|i: int, j: int| 0 <= i < j < init.len() implies #[trigger] resolves_before(
            init[i],
            init[j],
        ) by {
            assert(resolves_before(q[i], q[j]));
        }
        lemma_due_prefix(init, t)
    };
    assert forall|i: int| k <= i < q.len() implies (#[trigger] q[i]).deadline.nanos
        > t.nanos by {
        if i < q.len() - 1 {
            assert(q.drop_last()[i] == q[i]);
        }
    }
    assert forall|i: int| 0 <= i < k implies (#[trigger] q[i]).deadline.nanos <= t.nanos by {
        if k < q.len() {
            assert(q.drop_last()[i] == q[i]);
        }
    }
    lemma_split_by_deadline(q, t, k);
    k
}

/// Moving the clock forward keeps a timer well formed, takes the due
/// entries off the front of the queue and leaves the rest as it was.
pub proof fn lemma_advance(s: TimerView, to: Timestamp) -> (k: int)
    requires
        s.wf(),
        to.nanos >= s.now.nanos,
    ensures
        s.advance(to).wf(),
        0 <= k <= s.pending.len(),
        s.fired(to) == s.pending.take(k),
        s.advance(to).pending == s.pending.skip(k),
        forall|i: int| 0 <= i < k ==> (#[trigger] s.pending[i]).deadline.nanos <= to.nanos,
        forall|i: int|
            k <= i < s.pending.len() ==> (#[trigger] s.pending[i]).deadline.nanos > to.nanos,
{
    let k = lemma_due_prefix(s.pending, to);
    let rest = s.pending.skip(k);
    assert forall|i: int, j: int| 0 <= i < j < rest.len() implies #[trigger] resolves_before(
        rest[i],
        rest[j],
    ) by {
        assert(resolves_before(s.pending[k + i], s.pending[k + j]));
    }
    k
}

/// Registering a deadline keeps a timer well formed. A deadline that lies
/// ahead goes into the queue at `k`, behind every entry due no later and
/// before every entry due later; nothing else in the queue moves.
pub proof fn lemma_register(s: TimerView, when: Timestamp) -> (k: int)
    requires
        s.wf(),
        s.next_id < u64::MAX,
    ensures
        s.register(when).wf(),
        s.now.nanos >= when.nanos ==> s.register(when).pending == s.pending,
        s.now.nanos < when.nanos ==> {
            &&& 0 <= k <= s.pending.len()
            &&& s.register(when).pending == s.pending.insert(
                k,
                TimerEntry { deadline: when, id: s.next_id as u64 },
            )
            &&& forall|i: int| 0 <= i < k ==> (#[trigger] s.pending[i]).deadline.nanos <= when.nanos
            &&& forall|i: int|
                k <= i < s.pending.len() ==> (#[trigger] s.pending[i]).deadline.nanos > when.nanos
        },
{
    let q = s.pending;
    let entry = TimerEntry { deadline: when, id: s.next_id as u64 };
    let k = lemma_due_prefix(q, when);
    if when.nanos > s.now.nanos {
        let after = q.insert(k, entry);
        assert(after =~= q.take(k).push(entry) + q.skip(k));
        assert forall|i: int, j: int| 0 <= i < j < after.len() implies #[trigger] resolves_before(
            after[i],
            after[j],
        ) by {
            if j < k {
                assert(resolves_before(q[i], q[j]));
            } else if j == k {
                assert(q[i].deadline.nanos <= when.nanos);
            } else if i < k {
                assert(resolves_before(q[i], q[j - 1]));
            } else if i == k {
                assert(q[j - 1].deadline.nanos > when.nanos);
            } else {
                assert(resolves_before(q[i - 1], q[j - 1]));
            }
        }
        assert forall|i: int, j: int| 0 <= i < j < after.len() implies #[trigger] of_different_futures(
            after[i],
            after[j],
        ) by {
            let a = if i < k { i } else { i - 1 };
            let b = if j < k { j } else { j - 1 };
            if i != k && j != k {
                assert(of_different_futures(q[a], q[b]));
            } else if i == k {
                assert(q[b].id < s.next_id);
            } else {
                assert(q[a].id < s.next_id);
            }
        }
        assert forall|i: int| 0 <= i < after.len() implies {
            &&& (#[trigger] after[i]).deadline.nanos > s.now.nanos
            &&& after[i].id < s.next_id + 1
        } by {
            if i < k {
                assert(q[i].id < s.next_id);
            } else if i > k {
                assert(q[i - 1].id < s.next_id);
            }
        }
    }
    k
}

/// Discarding a future keeps a timer well formed and leaves no entry of
/// that future in the queue. If the queue held one, at `at`, exactly
/// that entry is gone; if it held none, the queue is as it was.
pub proof fn lemma_cancel(s: TimerView, id: u64) -> (at: int)
    requires
        s.wf(),
    ensures
        s.cancel(id).wf(),
        !holds_id(s.cancel(id).pending, id),
        holds_id(s.pending, id) ==> {
            &&& 0 <= at < s.pending.len()
            &&& s.pending[at].id == id
            &&& s.cancel(id).pending == s.pending.remove(at)
        },
        !holds_id(s.pending, id) ==> s.cancel(id).pending == s.pending,
{
    let q = s.pending;
    if holds_id(q, id) {
        let at = choose|i: int| 0 <= i < q.len() && (#[trigger] q[i]).id == id;
        lemma_remove_by_id(q, at);
        let after = q.remove(at);
        assert forall|i: int, j: int| 0 <= i < j < after.len() implies #[trigger] resolves_before(
            after[i],
            after[j],
        ) by {
            let a = if i < at { i } else { i + 1 };
            let b = if j < at { j } else { j + 1 };
            assert(resolves_before(q[a], q[b]));
        }
        assert forall|i: int, j: int| 0 <= i < j < after.len() implies #[trigger] of_different_futures(
            after[i],
            after[j],
        ) by {
            let a = if i < at { i } else { i + 1 };
            let b = if j < at { j } else { j + 1 };
            assert(of_different_futures(q[a], q[b]));
        }
        assert forall|i: int| 0 <= i < after.len() implies {
            &&& (#[trigger] after[i]).deadline.nanos > s.now.nanos
            &&& after[i].id < s.next_id
            &&& after[i].id != id
        } by {
            let a = if i < at { i } else { i + 1 };
            assert(q[a].id < s.next_id);
            if a < at {
                assert(of_different_futures(q[a], q[at]));
            } else {
                assert(of_different_futures(q[at], q[a]));
            }
        }
        at
    } else {
        lemma_filter_keeps_all(q, other_than(id));
        0
    }
}

/// Filtering a sequence that has grown by one element.
pub proof fn lemma_filter_push<A>(s: Seq<A>, a: A, pred: spec_fn(A) -> bool)
    ensures
        s.push(a).filter(pred) == if pred(a) {
            s.filter(pred).push(a)
        } else {
            s.filter(pred)
        },
{
    reveal(Seq::filter);
    assert(s.push(a).drop_last() =~= s);
}

/// Two filters may be applied in either order.
pub proof fn lemma_filter_commutes<A>(s: Seq<A>, p: spec_fn(A) -> bool, q: spec_fn(A) -> bool)
    ensures
        s.filter(p).filter(q) == s.filter(q).filter(p),
    decreases s.len(),
{
    reveal(Seq::filter);
    if s.len() > 0 {
        let init = s.drop_last();
        let last = s.last();
        lemma_filter_commutes(init, p, q);
        lemma_filter_push(init.filter(p), last, q);
        lemma_filter_push(init.filter(q), last, p);
    }
}

/// The timer after a run of calls to `advance_clock`, one for each of
/// `targets` in turn: a target before the clock's reading is refused and
/// leaves the timer as it is, any other moves the clock to it.
pub open spec fn after_advances(s: TimerView, targets: Seq<Timestamp>) -> TimerView
    decreases targets.len(),
{
    if targets.len() == 0 {
        s
    } else {
        let before = after_advances(s, targets.drop_last());
        if targets.last().nanos < before.now.nanos {
            before
        } else {
            before.advance(targets.last())
        }
    }
}

/// Time never moves backward. Whatever targets the clock is asked to move
/// to, and in whatever order, the timer stays well formed, every call
/// leaves the clock where it was or later, and a call is refused exactly
/// where its target lies before the clock's reading.
pub proof fn lemma_clock_never_moves_back(s: TimerView, targets: Seq<Timestamp>)
    requires
        s.wf(),
    ensures
        after_advances(s, targets).wf(),
        s.now.nanos <= after_advances(s, targets).now.nanos,
        targets.len() > 0 ==> {
            let before = after_advances(s, targets.drop_last());
            let after = after_advances(s, targets);
            &&& before.now.nanos <= after.now.nanos
            &&& targets.last().nanos < before.now.nanos ==> after == before
            &&& targets.last().nanos >= before.now.nanos ==> after.now == targets.last()
        },
    decreases targets.len(),
{
    if targets.len() > 0 {
        lemma_clock_never_moves_back(s, targets.drop_last());
        let before = after_advances(s, targets.drop_last());
        if targets.last().nanos >= before.now.nanos {
            lemma_advance(before, targets.last());
        }
    }
}

/// The timer after the deadlines `deadlines` have been registered, one
/// after the other.
pub open spec fn register_all(s: TimerView, deadlines: Seq<Timestamp>) -> TimerView
    decreases deadlines.len(),
{
    if deadlines.len() == 0 {
        s
    } else {
        register_all(s, deadlines.drop_last()).register(deadlines.last())
    }
}

/// The queue entry of the `i`-th of the deadlines registered on `s`.
pub open spec fn entry_of(s: TimerView, deadlines: Seq<Timestamp>, i: int) -> TimerEntry {
    TimerEntry { deadline: deadlines[i], id: (s.next_id + i) as u64 }
}

/// The future of the `i`-th of the deadlines registered on `s`, as it is
/// handed out.
pub open spec fn future_of(s: TimerView, deadlines: Seq<Timestamp>, i: int) -> WaitFutureView {
    WaitFutureView { id: (s.next_id + i) as u64, deadline: deadlines[i], consumed: false }
}

/// Whether `e` is the queue entry of one of the deadlines registered on
/// `s` that lay ahead of the clock.
pub open spec fn is_entry_of(s: TimerView, deadlines: Seq<Timestamp>, e: TimerEntry) -> bool {
    exists|i: int|
        0 <= i < deadlines.len() && deadlines[i].nanos > s.now.nanos && e == #[trigger] entry_of(
            s,
            deadlines,
            i,
        )
}

/// What a run of registrations leaves: the clock unmoved, the queue with
/// what it held before and one entry for each deadline that lay ahead,
/// and nothing else.
pub proof fn lemma_register_all(s: TimerView, deadlines: Seq<Timestamp>)
    requires
        s.wf(),
        s.next_id + deadlines.len() <= u64::MAX,
    ensures
        register_all(s, deadlines).wf(),
        register_all(s, deadlines).now == s.now,
        register_all(s, deadlines).next_id == s.next_id + deadlines.len(),
        forall|e: TimerEntry|
            s.pending.contains(e) ==> #[trigger] register_all(s, deadlines).pending.contains(e),
        forall|e: TimerEntry|
            is_entry_of(s, deadlines, e) ==> #[trigger] register_all(s, deadlines).pending.contains(
                e,
            ),
        forall|e: TimerEntry| #[trigger]
            register_all(s, deadlines).pending.contains(e) ==> s.pending.contains(e)
                || is_entry_of(s, deadlines, e),
    decreases deadlines.len(),
{
    if deadlines.len() > 0 {
        let init = deadlines.drop_last();
        let last = deadlines.last();
        let n = init.len() as int;
        lemma_register_all(s, init);
        let before = register_all(s, init);
        let after = register_all(s, deadlines);
        let k = lemma_register(before, last);
        let entry = entry_of(s, deadlines, n);
        assert forall|i: int| 0 <= i < n implies entry_of(s, init, i) == entry_of(
            s,
            deadlines,
            i,
        ) by {}
        if last.nanos > s.now.nanos {
            assert(after.pending == before.pending.insert(k, entry));
            assert(after.pending[k] == entry);
            assert forall|e: TimerEntry| before.pending.contains(e) implies after.pending.contains(
                e,
            ) by {
                let j = choose|j: int| 0 <= j < before.pending.len() && before.pending[j] == e;
                if j < k {
                    assert(after.pending[j] == e);
                } else {
                    assert(after.pending[j + 1] == e);
                }
            }
            assert forall|e: TimerEntry| after.pending.contains(e) implies before.pending.contains(
                e,
            ) || e == entry by {
                let j = choose|j: int| 0 <= j < after.pending.len() && after.pending[j] == e;
                if j < k {
                    assert(before.pending[j] == e);
                } else if j > k {
                    assert(before.pending[j - 1] == e);
                }
            }
        }
        assert forall|e: TimerEntry| is_entry_of(s, deadlines, e) implies after.pending.contains(
            e,
        ) by {
            let i = choose|i: int|
                0 <= i < deadlines.len() && deadlines[i].nanos > s.now.nanos && e == entry_of(
                    s,
                    deadlines,
                    i,
                );
            if i < n {
                assert(e == entry_of(s, init, i));
                assert(is_entry_of(s, init, e));
            }
        }
        assert forall|e: TimerEntry| #[trigger]
            after.pending.contains(e) implies s.pending.contains(e) || is_entry_of(
            s,
            deadlines,
            e,
        ) by {
            if last.nanos > s.now.nanos && e == entry {
                assert(e == entry_of(s, deadlines, n));
            } else {
                assert(before.pending.contains(e));
                if !s.pending.contains(e) {
                    let i = choose|i: int|
                        0 <= i < init.len() && init[i].nanos > s.now.nanos && e == entry_of(
                            s,
                            init,
                            i,
                        );
                    assert(e == entry_of(s, deadlines, i));
                }
            }
        }
    }
}

/// Deadlines resolve in the order of their times. Register any number of
/// deadlines, in any order, and move the clock to a point that none of
/// them lies after. Then what the clock's move hands back is in resolution
/// order: ascending by deadline, ties by registration. Every one of the
/// deadlines that lay ahead is in it. And every one of the futures is
/// ready.
pub proof fn lemma_deadlines_resolve_in_order(
    s: TimerView,
    deadlines: Seq<Timestamp>,
    to: Timestamp,
)
    requires
        s.wf(),
        s.next_id + deadlines.len() <= u64::MAX,
        to.nanos >= s.now.nanos,
        forall|i: int| 0 <= i < deadlines.len() ==> (#[trigger] deadlines[i]).nanos <= to.nanos,
    ensures
        in_resolution_order(register_all(s, deadlines).fired(to)),
        forall|e: TimerEntry|
            is_entry_of(s, deadlines, e) ==> #[trigger] register_all(s, deadlines).fired(
                to,
            ).contains(e),
        forall|i: int|
            0 <= i < deadlines.len() ==> state_of(
                register_all(s, deadlines).advance(to),
                #[trigger] future_of(s, deadlines, i),
            ) == WaitState::Ready,
{
    lemma_register_all(s, deadlines);
    let r = register_all(s, deadlines);
    let fired = r.fired(to);
    let end = r.advance(to);
    let k = lemma_advance(r, to);
    assert forall|a: int, b: int| 0 <= a < b < fired.len() implies #[trigger] resolves_before(
        fired[a],
        fired[b],
    ) by {
        assert(resolves_before(r.pending[a], r.pending[b]));
    }
    assert forall|e: TimerEntry| is_entry_of(s, deadlines, e) implies fired.contains(e) by {
        assert(r.pending.contains(e));
        let j = choose|j: int| 0 <= j < r.pending.len() && r.pending[j] == e;
        assert(j < k);
        assert(fired[j] == e);
    }
    assert forall|i: int| 0 <= i < deadlines.len() implies state_of(
        end,
        #[trigger] future_of(s, deadlines, i),
    ) == WaitState::Ready by {
        let e = entry_of(s, deadlines, i);
        if holds_id(end.pending, e.id) {
            let m = choose|m: int|
                0 <= m < end.pending.len() && (#[trigger] end.pending[m]).id == e.id;
            let held = r.pending[k + m];
            assert(held == end.pending[m]);
            assert(r.pending.contains(held));
            if s.pending.contains(held) {
                let j = choose|j: int| 0 <= j < s.pending.len() && s.pending[j] == held;
                assert(s.pending[j].id < s.next_id);
            } else {
                assert(is_entry_of(s, deadlines, held));
                let i2 = choose|i2: int|
                    0 <= i2 < deadlines.len() && deadlines[i2].nanos > s.now.nanos && held
                        == entry_of(s, deadlines, i2);
                assert(i2 == i);
                assert(held.deadline.nanos <= to.nanos);
            }
        }
    }
}

/// Ties resolve in the order of registration. Of two deadlines registered
/// for the same point in time, the one registered first comes first in
/// what the clock's move hands back.
pub proof fn lemma_ties_resolve_in_registration_order(
    s: TimerView,
    when: Timestamp,
    to: Timestamp,
)
    requires
        s.wf(),
        s.next_id + 2 <= u64::MAX,
        s.now.nanos < when.nanos <= to.nanos,
    ensures
        ({
            let fired = s.register(when).register(when).fired(to);
            let first = TimerEntry { deadline: when, id: s.next_id as u64 };
            let second = TimerEntry { deadline: when, id: (s.next_id + 1) as u64 };
            exists|i: int, j: int|
                0 <= i < j < fired.len() && #[trigger] fired[i] == first && #[trigger] fired[j]
                    == second
        }),
{
    let first = TimerEntry { deadline: when, id: s.next_id as u64 };
    let second = TimerEntry { deadline: when, id: (s.next_id + 1) as u64 };
    let s1 = s.register(when);
    let k1 = lemma_register(s, when);
    assert(s1.pending[k1] == first);
    let s2 = s1.register(when);
    let k2 = lemma_register(s1, when);
    assert(k1 < k2);
    assert(s2.pending[k1] == first);
    assert(s2.pending[k2] == second);
    let k = lemma_advance(s2, to);
    let fired = s2.fired(to);
    assert(k2 < k);
    assert(fired[k1] == first && fired[k2] == second);
}

/// A deadline that the clock has already reached resolves at once:
/// registering it creates no queue entry, and its future is ready.
pub proof fn lemma_immediate_resolution(s: TimerView, when: Timestamp)
    requires
        s.wf(),
        s.next_id < u64::MAX,
        s.now.nanos >= when.nanos,
    ensures
        s.register(when).pending == s.pending,
        state_of(
            s.register(when),
            WaitFutureView { id: s.next_id as u64, deadline: when, consumed: false },
        ) == WaitState::Ready,
{
    if holds_id(s.pending, s.next_id as u64) {
        let i = choose|i: int|
            0 <= i < s.pending.len() && (#[trigger] s.pending[i]).id == s.next_id;
        assert(s.pending[i].id < s.next_id);
    }
}

/// A deadline that lies ahead is pending once registered, and stays so
/// while the clock stays short of it.
pub proof fn lemma_pending_until_due(s: TimerView, when: Timestamp, to: Timestamp)
    requires
        s.wf(),
        s.next_id < u64::MAX,
        s.now.nanos <= to.nanos < when.nanos,
    ensures
        state_of(
            s.register(when).advance(to),
            WaitFutureView { id: s.next_id as u64, deadline: when, consumed: false },
        ) == WaitState::Pending,
{
    let entry = TimerEntry { deadline: when, id: s.next_id as u64 };
    let s1 = s.register(when);
    let k1 = lemma_register(s, when);
    assert(s1.pending[k1] == entry);
    let k = lemma_advance(s1, to);
    assert(k <= k1);
    assert(s1.advance(to).pending[k1 - k] == entry);
}

/// A discarded future leaves nothing behind. It never resolves, and every
/// other deadline resolves as if the discarded one had never been
/// registered: what a move of the clock hands back is what it would have
/// handed back, less the discarded entry, and so is the queue it leaves.
pub proof fn lemma_cancelled_future_never_resolves(s: TimerView, id: u64, to: Timestamp)
    requires
        s.wf(),
        to.nanos >= s.now.nanos,
    ensures
        !holds_id(s.cancel(id).fired(to), id),
        !holds_id(s.cancel(id).advance(to).pending, id),
        s.cancel(id).fired(to) == s.fired(to).filter(other_than(id)),
        s.cancel(id).advance(to) == s.advance(to).cancel(id),
{
    lemma_filter_commutes(s.pending, other_than(id), due_by(to));
    lemma_filter_commutes(s.pending, other_than(id), due_after(to));
    lemma_cancel(s, id);
    let c = s.cancel(id);
    let k = lemma_advance(c, to);
    if holds_id(c.fired(to), id) {
        let i = choose|i: int| 0 <= i < c.fired(to).len() && (#[trigger] c.fired(to)[i]).id == id;
        assert(c.pending[i].id == id);
    }
    if holds_id(c.advance(to).pending, id) {
        let i = choose|i: int|
            0 <= i < c.advance(to).pending.len() && (#[trigger] c.advance(to).pending[i]).id == id;
        assert(c.pending[k + i].id == id);
    }
}

} // verus!
