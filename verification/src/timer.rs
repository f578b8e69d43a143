//! The clock and the queue of deadlines that hang on it.
//!
//! Time moves only when the owner of a [`Timer`] says so. A deadline is
//! registered against the clock and gets a [`WaitFuture`]; the future is
//! pending for as long as the queue holds its entry, and ready from the
//! moment the entry has left the queue by resolution.

use crate::error::RuntimeError;
use crate::time::{Duration, Timestamp};
use vstd::prelude::*;

verus! {

/// One registered deadline: when it falls due, and the identity of the
/// future that waits for it. Identities are handed out in registration
/// order.
#[derive(Clone, Copy, Debug, PartialEq, Eq, Hash, Structural)]
pub struct TimerEntry {
    pub deadline: Timestamp,
    pub id: u64,
}

/// Holds of the entries that are due once the clock reads `t`.
pub open spec fn due_by(t: Timestamp) -> spec_fn(TimerEntry) -> bool {
    |e: TimerEntry| e.deadline.nanos <= t.nanos
}

/// Holds of the entries that are still in the future when the clock reads `t`.
pub open spec fn due_after(t: Timestamp) -> spec_fn(TimerEntry) -> bool {
    |e: TimerEntry| e.deadline.nanos > t.nanos
}

/// Holds of every entry but the one with identity `id`.
pub open spec fn other_than(id: u64) -> spec_fn(TimerEntry) -> bool {
    |e: TimerEntry| e.id != id
}

/// Whether some entry of `q` belongs to the future with identity `id`.
pub open spec fn holds_id(q: Seq<TimerEntry>, id: u64) -> bool {
    exists|i: int| 0 <= i < q.len() && (#[trigger] q[i]).id == id
}

/// The order of resolution: by deadline, and among equal deadlines by
/// registration.
pub open spec fn resolves_before(a: TimerEntry, b: TimerEntry) -> bool {
    a.deadline.nanos < b.deadline.nanos || (a.deadline.nanos == b.deadline.nanos && a.id < b.id)
}

/// Whether every entry of `q` resolves before all that follow it.
pub open spec fn in_resolution_order(q: Seq<TimerEntry>) -> bool {
    forall|i: int, j: int| 0 <= i < j < q.len() ==> #[trigger] resolves_before(q[i], q[j])
}

/// Whether two entries belong to different futures.
pub open spec fn of_different_futures(a: TimerEntry, b: TimerEntry) -> bool {
    a.id != b.id
}

/// Whether no future has more than one entry in `q`.
pub open spec fn one_entry_each(q: Seq<TimerEntry>) -> bool {
    forall|i: int, j: int| 0 <= i < j < q.len() ==> #[trigger] of_different_futures(q[i], q[j])
}

/// The state of a timer as contracts see it.
pub struct TimerView {
    /// What the clock reads.
    pub now: Timestamp,
    /// The identity that the next registration gets.
    pub next_id: nat,
    /// The deadlines not yet reached, in the order in which they will resolve.
    pub pending: Seq<TimerEntry>,
}

impl TimerView {
    pub open spec fn wf(self) -> bool {
        &&& self.next_id <= u64::MAX
        &&& in_resolution_order(self.pending)
        &&& forall|i: int|
            0 <= i < self.pending.len() ==> {
                &&& (#[trigger] self.pending[i]).deadline.nanos > self.now.nanos
                &&& self.pending[i].id < self.next_id
            }
        &&& one_entry_each(self.pending)
    }

    /// The entries that resolve when the clock moves to `to`, in the order
    /// in which they do.
    pub open spec fn fired(self, to: Timestamp) -> Seq<TimerEntry> {
        self.pending.filter(due_by(to))
    }

    /// The timer after its clock has moved to `to`.
    pub open spec fn advance(self, to: Timestamp) -> TimerView {
        TimerView { now: to, next_id: self.next_id, pending: self.pending.filter(due_after(to)) }
    }

    /// The timer after a deadline at `when` has been registered. One that
    /// is already reached leaves the queue as it was.
    pub open spec fn register(self, when: Timestamp) -> TimerView {
        let entry = TimerEntry { deadline: when, id: self.next_id as u64 };
        TimerView {
            now: self.now,
            next_id: self.next_id + 1,
            pending: if when.nanos <= self.now.nanos {
                self.pending
            } else {
                self.pending.filter(due_by(when)).push(entry) + self.pending.filter(due_after(when))
            },
        }
    }

    /// The timer after the future with identity `id` has been discarded.
    pub open spec fn cancel(self, id: u64) -> TimerView {
        TimerView {
            now: self.now,
            next_id: self.next_id,
            pending: self.pending.filter(other_than(id)),
        }
    }
}

/// A filter keeps a sequence whole where every element passes.
pub proof fn lemma_filter_keeps_all<A>(s: Seq<A>, pred: spec_fn(A) -> bool)
    requires
        forall|i: int| 0 <= i < s.len() ==> pred(#[trigger] s[i]),
    ensures
        s.filter(pred) == s,
    decreases s.len(),
{
    reveal(Seq::filter);
    if s.len() > 0 {
        lemma_filter_keeps_all(s.drop_last(), pred);
        assert(s.drop_last().push(s.last()) =~= s);
    }
}

/// A filter leaves nothing where no element passes.
pub proof fn lemma_filter_drops_all<A>(s: Seq<A>, pred: spec_fn(A) -> bool)
    requires
        forall|i: int| 0 <= i < s.len() ==> !pred(#[trigger] s[i]),
    ensures
        s.filter(pred) == Seq::<A>::empty(),
    decreases s.len(),
{
    reveal(Seq::filter);
    if s.len() > 0 {
        lemma_filter_drops_all(s.drop_last(), pred);
    } else {
        assert(s =~= Seq::<A>::empty());
    }
}

/// In a queue that is in resolution order, the entries due by `t` are the
/// first `k` and the later ones are the rest, where `k` is the place of the
/// first entry that is not due.
pub proof fn lemma_split_by_deadline(q: Seq<TimerEntry>, t: Timestamp, k: int)
    requires
        in_resolution_order(q),
        0 <= k <= q.len(),
        forall|i: int| 0 <= i < k ==> (#[trigger] q[i]).deadline.nanos <= t.nanos,
        k < q.len() ==> q[k].deadline.nanos > t.nanos,
    ensures
        q.filter(due_by(t)) == q.subrange(0, k),
        q.filter(due_after(t)) == q.subrange(k, q.len() as int),
{
    let head = q.subrange(0, k);
    let tail = q.subrange(k, q.len() as int);
    assert(head + tail =~= q);
    assert forall|i: int| 0 <= i < tail.len() implies (#[trigger] tail[i]).deadline.nanos
        > t.nanos by {
        if i > 0 {
            assert(resolves_before(q[k], q[k + i]));
        }
    }
    lemma_filter_keeps_all(head, due_by(t));
    lemma_filter_drops_all(tail, due_by(t));
    lemma_filter_drops_all(head, due_after(t));
    lemma_filter_keeps_all(tail, due_after(t));
    Seq::filter_distributes_over_add(head, tail, due_by(t));
    Seq::filter_distributes_over_add(head, tail, due_after(t));
    assert(head + Seq::<TimerEntry>::empty() =~= head);
    assert(Seq::<TimerEntry>::empty() + tail =~= tail);
}

/// Where no identity occurs twice, dropping the entries of one identity
/// removes the one entry that has it.
pub proof fn lemma_remove_by_id(q: Seq<TimerEntry>, at: int)
    requires
        0 <= at < q.len(),
        one_entry_each(q),
    ensures
        q.filter(other_than(q[at].id)) == q.remove(at),
{
    let id = q[at].id;
    let head = q.subrange(0, at);
    let one = seq![q[at]];
    let tail = q.subrange(at + 1, q.len() as int);
    assert(head + one + tail =~= q);
    assert forall|i: int| 0 <= i < head.len() implies other_than(id)(#[trigger] head[i]) by {
        assert(of_different_futures(q[i], q[at]));
    }
    assert forall|i: int| 0 <= i < tail.len() implies other_than(id)(#[trigger] tail[i]) by {
        assert(of_different_futures(q[at], q[at + 1 + i]));
    }
    lemma_filter_keeps_all(head, other_than(id));
    lemma_filter_drops_all(one, other_than(id));
    lemma_filter_keeps_all(tail, other_than(id));
    Seq::filter_distributes_over_add(head, one, other_than(id));
    Seq::filter_distributes_over_add(head + one, tail, other_than(id));
    assert(head + Seq::<TimerEntry>::empty() + tail =~= q.remove(at));
}

/// Where a future stands.
#[derive(Clone, Copy, Debug, PartialEq, Eq, Hash, Structural)]
pub enum WaitState {
    /// The deadline lies ahead: the queue holds the future's entry.
    Pending,
    /// The deadline is reached, and the completion has not been taken.
    Ready,
    /// The completion has been taken; there is no second one.
    Consumed,
}

/// A future as contracts see it.
pub struct WaitFutureView {
    pub id: u64,
    pub deadline: Timestamp,
    pub consumed: bool,
}

/// The handle on one registered deadline. It is not `Clone`: whoever holds
/// it is the one waiter, and handing it to [`Timer::cancel`] gives it up.
#[derive(Debug)]
pub struct WaitFuture {
    id: u64,
    deadline: Timestamp,
    consumed: bool,
}

impl View for WaitFuture {
    type V = WaitFutureView;

    closed spec fn view(&self) -> WaitFutureView {
        WaitFutureView { id: self.id, deadline: self.deadline, consumed: self.consumed }
    }
}

impl WaitFuture {
    /// The identity under which the timer knows this future.
    pub fn id(&self) -> (id: u64)
        ensures
            id == self@.id,
    {
        self.id
    }

    /// The point in time this future waits for.
    pub fn deadline(&self) -> (t: Timestamp)
        ensures
            t == self@.deadline,
    {
        self.deadline
    }
}

/// The state of the future `fut` on a timer in state `timer`.
pub open spec fn state_of(timer: TimerView, fut: WaitFutureView) -> WaitState {
    if fut.consumed {
        WaitState::Consumed
    } else if holds_id(timer.pending, fut.id) {
        WaitState::Pending
    } else {
        WaitState::Ready
    }
}

/// What moving the clock of a timer in state `before` to `now` owes: a
/// point before the current one is refused and changes nothing; any other
/// becomes the clock's reading, and the entries it reaches leave the queue
/// and are handed back in the order of their resolution.
pub open spec fn advance_clock_outcome(
    before: TimerView,
    now: Timestamp,
    r: Result<Vec<TimerEntry>, RuntimeError>,
    after: TimerView,
) -> bool {
    if now.nanos < before.now.nanos {
        &&& r matches Err(e)
        &&& e == RuntimeError::ClockRegression
        &&& after == before
    } else {
        &&& r matches Ok(fired)
        &&& fired@ == before.fired(now)
        &&& after == before.advance(now)
    }
}

/// What registering a deadline at `when` on a timer in state `before`
/// owes: it fails, and changes nothing, only where no identity is left;
/// otherwise the future gets the next identity and the timer is
/// `before.register(when)`.
pub open spec fn wait_until_outcome(
    before: TimerView,
    when: Timestamp,
    r: Result<WaitFuture, RuntimeError>,
    after: TimerView,
) -> bool {
    if before.next_id == u64::MAX {
        &&& r matches Err(e)
        &&& e == RuntimeError::TimersExhausted
        &&& after == before
    } else {
        &&& r matches Ok(fut)
        &&& fut@ == (WaitFutureView { id: before.next_id as u64, deadline: when, consumed: false })
        &&& after == before.register(when)
    }
}

/// What registering a deadline `duration` from now owes: where that point
/// lies beyond what the clock can represent it fails and changes nothing;
/// otherwise it is the registration of that point.
pub open spec fn wait_outcome(
    before: TimerView,
    duration: Duration,
    r: Result<WaitFuture, RuntimeError>,
    after: TimerView,
) -> bool {
    if before.now@ + duration@ > u64::MAX {
        &&& r matches Err(e)
        &&& e == RuntimeError::DeadlineOverflow
        &&& after == before
    } else {
        wait_until_outcome(
            before,
            Timestamp { nanos: (before.now@ + duration@) as u64 },
            r,
            after,
        )
    }
}

/// What asking a future for its completion owes: the answer is the
/// future's state, and a ready future is consumed by the asking.
pub open spec fn poll_outcome(
    timer: TimerView,
    before: WaitFutureView,
    s: WaitState,
    after: WaitFutureView,
) -> bool {
    &&& s == state_of(timer, before)
    &&& after == (WaitFutureView {
        id: before.id,
        deadline: before.deadline,
        consumed: before.consumed || s == WaitState::Ready,
    })
}

/// The clock of one backend and the deadlines registered against it.
pub struct Timer {
    now: Timestamp,
    next_id: u64,
    queue: Vec<TimerEntry>,
}

impl View for Timer {
    type V = TimerView;

    closed spec fn view(&self) -> TimerView {
        TimerView { now: self.now, next_id: self.next_id as nat, pending: self.queue@ }
    }
}

impl Timer {
    /// The invariant of a timer: its queue is in resolution order, holds
    /// only deadlines that the clock has not reached, and no identity twice.
    pub open spec fn wf(&self) -> bool {
        self@.wf()
    }

    /// A timer whose clock reads `now`, with nothing registered.
    pub fn new(now: Timestamp) -> (timer: Timer)
        ensures
            timer.wf(),
            timer@ == (TimerView { now, next_id: 0, pending: Seq::empty() }),
    {
        Timer { now, next_id: 0, queue: Vec::new() }
    }

    /// What the clock reads.
    pub fn now(&self) -> (t: Timestamp)
        ensures
            t == self@.now,
    {
        self.now
    }

    /// Moves the clock to `now` and resolves every deadline that this
    /// reaches: the entries leave the queue and come back, in the order of
    /// their resolution. A point before the current one is refused and
    /// changes nothing.
    pub fn advance_clock(&mut self, now: Timestamp) -> (r: Result<Vec<TimerEntry>, RuntimeError>)
        requires
            old(self).wf(),
        ensures
            final(self).wf(),
            advance_clock_outcome(old(self)@, now, r, final(self)@),
    {
        if now.nanos < self.now.nanos {
            return Err(RuntimeError::ClockRegression);
        }
        let mut k: usize = 0;
        while k < self.queue.len() && self.queue[k].deadline.nanos <= now.nanos
            invariant
                k <= self.queue.len(),
                forall|i: int|
                    0 <= i < k ==> (#[trigger] self.queue@[i]).deadline.nanos <= now.nanos,
            decreases self.queue.len() - k,
        {
            k += 1;
        }
        proof {
            lemma_split_by_deadline(self.queue@, now, k as int);
        }
        let mut fired = self.queue.split_off(k);
        core::mem::swap(&mut self.queue, &mut fired);
        self.now = now;
        Ok(fired)
    }

    /// Registers a deadline at `when` and hands out the future that waits
    /// for it. A deadline that the clock has already reached creates no
    /// queue entry: its future is ready at once. Any other goes into the
    /// queue behind every entry that falls due no later than it.
    pub fn wait_until(&mut self, when: Timestamp) -> (r: Result<WaitFuture, RuntimeError>)
        requires
            old(self).wf(),
        ensures
            final(self).wf(),
            wait_until_outcome(old(self)@, when, r, final(self)@),
    {
        if self.next_id == u64::MAX {
            return Err(RuntimeError::TimersExhausted);
        }
        let id: u64 = self.next_id;
        let entry = TimerEntry { deadline: when, id };
        if when.nanos > self.now.nanos {
            let mut pos: usize = 0;
            while pos < self.queue.len() && self.queue[pos].deadline.nanos <= when.nanos
                invariant
                    pos <= self.queue.len(),
                    forall|i: int|
                        0 <= i < pos ==> (#[trigger] self.queue@[i]).deadline.nanos <= when.nanos,
                decreases self.queue.len() - pos,
            {
                pos += 1;
            }
            proof {
                let q = self.queue@;
                lemma_split_by_deadline(q, when, pos as int);
                assert(q.insert(pos as int, entry) =~= q.subrange(0, pos as int).push(entry)
                    + q.subrange(pos as int, q.len() as int));
                assert forall|j: int| pos <= j < q.len() implies (#[trigger] q[j]).deadline.nanos
                    > when.nanos by {
                    if j > pos {
                        assert(resolves_before(q[pos as int], q[j]));
                    }
                }
            }
            self.queue.insert(pos, entry);
        }
        self.next_id = id + 1;
        Ok(WaitFuture { id, deadline: when, consumed: false })
    }

    /// Discards a future. If it was still pending, its entry leaves the
    /// queue; if it had resolved or been consumed, nothing changes.
    pub fn cancel(&mut self, fut: WaitFuture)
        requires
            old(self).wf(),
        ensures
            final(self).wf(),
            final(self)@ == old(self)@.cancel(fut@.id),
    {
        let mut i: usize = 0;
        while i < self.queue.len() && self.queue[i].id != fut.id
            invariant
                i <= self.queue.len(),
                forall|j: int| 0 <= j < i ==> (#[trigger] self.queue@[j]).id != fut.id,
            decreases self.queue.len() - i,
        {
            i += 1;
        }
        if i < self.queue.len() {
            proof {
                lemma_remove_by_id(self.queue@, i as int);
            }
            self.queue.remove(i);
        } else {
            proof {
                lemma_filter_keeps_all(self.queue@, other_than(fut.id));
            }
        }
    }

    /// Where `fut` stands on this timer. Asking changes nothing.
    pub fn state(&self, fut: &WaitFuture) -> (s: WaitState)
        ensures
            s == state_of(self@, fut@),
    {
        if fut.consumed {
            return WaitState::Consumed;
        }
        let mut i: usize = 0;
        while i < self.queue.len()
            invariant
                !fut.consumed,
                i <= self.queue.len(),
                forall|j: int| 0 <= j < i ==> (#[trigger] self.queue@[j]).id != fut.id,
            decreases self.queue.len() - i,
        {
            if self.queue[i].id == fut.id {
                assert(self.queue@[i as int].id == fut.id);
                return WaitState::Pending;
            }
            i += 1;
        }
        WaitState::Ready
    }

    /// Asks `fut` for its completion. A ready future gives it exactly once:
    /// this call answers `Ready` and leaves the future consumed. A pending
    /// or consumed future is left as it is.
    pub fn poll(&self, fut: &mut WaitFuture) -> (s: WaitState)
        ensures
            poll_outcome(self@, old(fut)@, s, final(fut)@),
    {
        let s = self.state(fut);
        match s {
            WaitState::Ready => {
                fut.consumed = true;
            },
            _ => {},
        }
        s
    }
}

/// The handle by which a backend holds its timer. There is one per
/// backend, and it owns the timer.
pub struct TimerRc(pub Timer);

impl View for TimerRc {
    type V = TimerView;

    open spec fn view(&self) -> TimerView {
        self.0@
    }
}

impl TimerRc {
    /// The timer behind the handle.
    pub fn timer(&self) -> (timer: &Timer)
        ensures
            *timer == self.0,
    {
        &self.0
    }
}

} // verus!
