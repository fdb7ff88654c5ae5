use crate::queue::Queue;
use crate::scheduler::{next_state, Request, Response, WaitQueue};
use crate::spin_lock::spin_mutex;
use core::marker::PhantomData;
use core::ops::Deref;
use core::ops::DerefMut;
use vstd::prelude::*;

verus! {

/// A claim on a free mutex: it becomes held and the claim succeeds; on a held
/// one nothing changes and the claim fails.
pub open spec fn take_outcome<N>(waiters: Seq<N>, held: bool) -> (Seq<N>, bool, bool) {
    if held {
        (waiters, true, false)
    } else {
        (waiters, true, true)
    }
}

/// A blocked context files its node: behind the other waiters while the mutex
/// is held; handed back to run again if it was released in between.
pub open spec fn park_outcome<N>(waiters: Seq<N>, held: bool, node: N) -> (Seq<N>, bool, Option<N>) {
    if held {
        (waiters.push(node), true, None)
    } else {
        (waiters, false, Some(node))
    }
}

/// Release: the mutex is free and the front waiter, if any, is woken.
pub open spec fn release_outcome<N>(waiters: Seq<N>, held: bool) -> (Seq<N>, bool, Option<N>) {
    if waiters.len() > 0 {
        (waiters.drop_first(), false, Some(waiters[0]))
    } else {
        (waiters, false, None)
    }
}

/// Something done to a mutex's state by the contexts that share it.
pub enum MutexOp<N> {
    /// A claim; on success the claimer holds a guard.
    Claim,
    /// A blocked context files its node.
    Park(N),
    /// A guard is given back. Only a guard holder can do this: with no live
    /// guard it does not happen.
    Release,
}

/// The state and the number of live guards after `ops`, from `waiters`,
/// `held` and `live` guards.
pub open spec fn after_ops<N>(waiters: Seq<N>, held: bool, live: nat, ops: Seq<MutexOp<N>>) -> (
    Seq<N>,
    bool,
    nat,
)
    decreases ops.len(),
{
    if ops.len() == 0 {
        (waiters, held, live)
    } else {
        let (w, h, n) = after_ops(waiters, held, live, ops.drop_last());
        match ops.last() {
            MutexOp::Claim => {
                let (w2, h2, ok) = take_outcome(w, h);
                (w2, h2, if ok { n + 1 } else { n })
            },
            MutexOp::Park(node) => {
                let (w2, h2, _) = park_outcome(w, h, node);
                (w2, h2, n)
            },
            MutexOp::Release => {
                if n > 0 {
                    let (w2, h2, _) = release_outcome(w, h);
                    (w2, h2, (n - 1) as nat)
                } else {
                    (w, h, n)
                }
            },
        }
    }
}

/// Mutual exclusion: whatever the contexts sharing a mutex do, in any order,
/// at most one guard is live at any time, and the mutex is held exactly while
/// one is. It holds from a new mutex (no guard, not held) on.
pub proof fn lemma_mutual_exclusion<N>(waiters: Seq<N>, held: bool, live: nat, ops: Seq<MutexOp<N>>)
    requires
        live <= 1,
        held == (live == 1),
    ensures
        after_ops(waiters, held, live, ops).2 <= 1,
        after_ops(waiters, held, live, ops).1 == (after_ops(waiters, held, live, ops).2 == 1),
    decreases ops.len(),
{
    if ops.len() > 0 {
        lemma_mutual_exclusion(waiters, held, live, ops.drop_last());
    }
}

/// FIFO wake order: while another context holds the mutex, `a`, `b` and `c`
/// block on it in that order. Each release then wakes the next of them, `a`
/// first, and the woken context claims the mutex before the next release.
pub proof fn lemma_fifo_wake_order<N>(a: N, b: N, c: N)
    ensures
        ({
            let (w1, h1, _) = park_outcome(Seq::<N>::empty(), true, a);
            let (w2, h2, _) = park_outcome(w1, h1, b);
            let (w3, h3, _) = park_outcome(w2, h2, c);
            let (w4, h4, first) = release_outcome(w3, h3);
            let (w5, h5, _) = take_outcome(w4, h4);
            let (w6, h6, second) = release_outcome(w5, h5);
            let (w7, h7, _) = take_outcome(w6, h6);
            let (w8, h8, third) = release_outcome(w7, h7);
            &&& first == Some(a)
            &&& second == Some(b)
            &&& third == Some(c)
            &&& w8.len() == 0
        }),
{
    let w3 = Seq::<N>::empty().push(a).push(b).push(c);
    assert(w3.drop_first() =~= seq![b, c]);
    assert(seq![b, c].drop_first() =~= seq![c]);
}

/// Two-phase removal: a running context that stages its own removal stays at
/// the front of the ready queue, untouched, while it goes on running. Once it
/// has suspended to complete the removal, its node leaves the ready queue once
/// and joins the back of a held mutex's wait queue. No node is copied or lost:
/// the two queues hold the same nodes as before.
pub proof fn lemma_two_phase_removal<N, W>(ready: Seq<N>, waiters: Seq<N>, target: W)
    requires
        ready.len() > 0,
    ensures
        next_state(ready, false, Some(Request::<N, W>::StageUnschedule)) == (
            ready,
            true,
            Response::<N>::Staged,
        ),
        next_state(ready, true, Some(Request::<N, W>::CompleteUnschedule(target))) == (
            ready.drop_first(),
            false,
            Response::<N>::Nothing,
        ),
        park_outcome(waiters, true, ready[0]) == (waiters.push(ready[0]), true, None::<N>),
        ready.drop_first().to_multiset().add(waiters.push(ready[0]).to_multiset())
            == ready.to_multiset().add(waiters.to_multiset()),
{
    broadcast use vstd::seq_lib::group_to_multiset_ensures;

    assert(ready =~= seq![ready[0]] + ready.drop_first());
    vstd::seq_lib::lemma_multiset_commutative(seq![ready[0]], ready.drop_first());
    assert(seq![ready[0]] =~= Seq::<N>::empty().push(ready[0]));
    assert(ready.to_multiset() =~= ready.drop_first().to_multiset().insert(ready[0]));
    assert(ready.drop_first().to_multiset().add(waiters.push(ready[0]).to_multiset())
        =~= ready.to_multiset().add(waiters.to_multiset()));
}

/// Where a context that wants the mutex stands in the blocking protocol.
#[derive(Clone, Copy, Debug, PartialEq, Eq, Structural)]
pub enum LockPhase {
    /// About to claim the mutex (at the start, and after each wake-up).
    Claim,
    /// Found it held and asked to stage its own removal.
    Staged,
    /// Asked to complete its removal into the mutex's wait queue.
    Filed,
}

/// What a context that wants the mutex does next.
#[derive(Clone, Copy, Debug, PartialEq, Eq, Structural)]
pub enum LockAction {
    /// It holds the mutex.
    Acquired,
    /// It suspends asking to stage its own removal.
    Stage,
    /// It suspends asking to complete its removal into the wait queue.
    Complete,
}

/// One step of the blocking protocol: from the mutex's state, the phase, and the
/// response the context was last resumed with, to the new state, the next phase
/// and the next action.
///
/// A claim either succeeds or stages the context's removal. Once staged, the
/// context completes its removal into the wait queue; the scheduler files its
/// node there only after the context has suspended. The context claims again
/// when it is next resumed.
pub open spec fn lock_outcome<N>(waiters: Seq<N>, held: bool, phase: LockPhase, response: Response<N>) -> (
    Seq<N>,
    bool,
    (LockPhase, LockAction),
) {
    if phase == LockPhase::Staged && response is Staged {
        (waiters, held, (LockPhase::Filed, LockAction::Complete))
    } else {
        let (w, h, ok) = take_outcome(waiters, held);
        if ok {
            (w, h, (LockPhase::Claim, LockAction::Acquired))
        } else {
            (w, h, (LockPhase::Staged, LockAction::Stage))
        }
    }
}

/// What a call of `Mutex::lock` hands back.
#[verifier::reject_recursive_types(T)]
#[verifier::reject_recursive_types(N)]
#[verifier::reject_recursive_types(Q)]
pub enum LockStep<'a, T, N, Q: Queue<N>> {
    /// The mutex is held by the caller.
    Acquired(MutexGuard<'a, T, N, Q>),
    /// The caller goes on in this phase after suspending with this request.
    Suspend(LockPhase, Request<N, &'a Mutex<T, N, Q>>),
}

/// The state a mutex keeps under its busy-wait lock: whether a guard is live,
/// and the nodes of the contexts that found it held, in the order of the queue.
pub struct WaitState<N, Q: Queue<N>> {
    waiters: Q,
    held: bool,
    marker: PhantomData<N>,
}

impl<N, Q: Queue<N>> WaitState<N, Q> {
    /// The blocked contexts' nodes, front first.
    pub closed spec fn waiters(&self) -> Seq<N> {
        self.waiters.items()
    }

    /// Whether a guard is live.
    pub closed spec fn held(&self) -> bool {
        self.held
    }

    /// A free mutex with no waiters.
    pub fn new() -> (r: Self)
        ensures
            r.waiters() == Seq::<N>::empty(),
            !r.held(),
    {
        WaitState { waiters: Q::empty(), held: false, marker: PhantomData }
    }

    /// Claims the mutex if it is free. Never blocks; on a held mutex it
    /// changes nothing, the wait queue included.
    pub fn try_take(&mut self) -> (r: bool)
        ensures
            (final(self).waiters(), final(self).held(), r) == take_outcome(
                old(self).waiters(),
                old(self).held(),
            ),
    {
        if self.held {
            false
        } else {
            self.held = true;
            true
        }
    }

    /// Files a blocked context's node; returns it when the mutex is free.
    pub fn park(&mut self, node: N) -> (r: Option<N>)
        ensures
            (final(self).waiters(), final(self).held(), r) == park_outcome(
                old(self).waiters(),
                old(self).held(),
                node,
            ),
    {
        if self.held {
            self.waiters.push(node);
            None
        } else {
            Some(node)
        }
    }

    /// Frees the mutex and returns the node to wake, if a context waits.
    pub fn release(&mut self) -> (r: Option<N>)
        ensures
            (final(self).waiters(), final(self).held(), r) == release_outcome(
                old(self).waiters(),
                old(self).held(),
            ),
    {
        self.held = false;
        self.waiters.pop()
    }

    /// Takes one step of the blocking protocol.
    pub fn lock_next(&mut self, phase: LockPhase, response: Response<N>) -> (r: (LockPhase, LockAction))
        ensures
            (final(self).waiters(), final(self).held(), r) == lock_outcome(
                old(self).waiters(),
                old(self).held(),
                phase,
                response,
            ),
    {
        let staged = match response {
            Response::Staged => true,
            _ => false,
        };
        if phase == LockPhase::Staged && staged {
            (LockPhase::Filed, LockAction::Complete)
        } else if self.try_take() {
            (LockPhase::Claim, LockAction::Acquired)
        } else {
            (LockPhase::Staged, LockAction::Stage)
        }
    }
}

/// A mutex whose blocked callers leave the ready queue and wait in a queue of
/// their own. Its state is kept under a busy-wait lock, held only for a few
/// steps and never across a suspension.
///
/// That state is shared with every thread that uses the mutex, so what a call
/// finds there is not known in advance: each decision made on it is a method of
/// `WaitState`, whose contract states it exactly.
#[verifier::reject_recursive_types(T)]
#[verifier::reject_recursive_types(N)]
#[verifier::reject_recursive_types(Q)]
pub struct Mutex<T, N, Q: Queue<N>> {
    queue_lock: spin::mutex::SpinMutex<WaitState<N, Q>, spin::Spin>,
    data: spin::mutex::SpinMutex<T, spin::Spin>,
    initial: Ghost<(Seq<N>, bool)>,
}

/// Access to the value of a held mutex. It is given back with `unlock`, which
/// returns the waiter to wake. It has no `Drop`, because waking that waiter
/// means suspending through the driver: a guard dropped without `unlock` leaves
/// the mutex held for good. A driver wraps it in a guard of its own that calls
/// `unlock` on every exit path.
#[verifier::reject_recursive_types(T)]
#[verifier::reject_recursive_types(N)]
#[verifier::reject_recursive_types(Q)]
pub struct MutexGuard<'a, T, N, Q: Queue<N>> {
    lock: &'a Mutex<T, N, Q>,
    data: spin::mutex::SpinMutexGuard<'a, T, spin::Spin>,
}

impl<T, N, Q: Queue<N>> Mutex<T, N, Q> {
    /// The wait queue the mutex was built with. This and `initially_held` are
    /// a record of the start only: the state itself is shared, and later calls
    /// do not read them.
    pub closed spec fn initial_waiters(&self) -> Seq<N> {
        self.initial@.0
    }

    /// Whether the mutex was built held.
    pub closed spec fn initially_held(&self) -> bool {
        self.initial@.1
    }

    /// A free mutex around `data`, with no waiters.
    pub fn new(data: T) -> (r: Self)
        ensures
            r.initial_waiters() == Seq::<N>::empty(),
            !r.initially_held(),
    {
        let state: WaitState<N, Q> = WaitState::new();
        let initial = Ghost((state.waiters(), state.held()));
        Mutex { queue_lock: spin_mutex(state), data: spin_mutex(data), initial }
    }

    /// Claims the mutex if it is free, without suspending and without issuing
    /// any request: `None` when it is held. The decision is
    /// `WaitState::try_take`, which on a held mutex leaves the wait queue as it
    /// was.
    pub fn try_lock(&self) -> (r: Option<MutexGuard<'_, T, N, Q>>)
        ensures
            r matches Some(g) ==> g.owner() == *self,
    {
        let mut l = self.queue_lock.lock();
        let taken = l.deref_mut().try_take();
        if taken {
            // `held` was false, so the previous holder let the value go already
            // (see `MutexGuard::unlock`): this does not wait.
            Some(MutexGuard { lock: self, data: self.data.lock() })
        } else {
            None
        }
    }

    /// Files the node of a context that found the mutex held and has
    /// suspended to complete its removal. `Some` hands the node back: the mutex
    /// was released in between, and the context must run again to retry.
    pub fn park(&self, node: N) -> (r: Option<N>)
        ensures
            r matches Some(n) ==> n == node,
    {
        let mut l = self.queue_lock.lock();
        l.deref_mut().park(node)
    }
    /// One step of blocking on the mutex, for a context in `phase` that was
    /// last resumed with `response`; start in `LockPhase::Claim` with
    /// `Response::Nothing`. The step is decided by `WaitState::lock_next` on
    /// the state found under the busy-wait lock. Whatever that state was, a
    /// staged context completes its removal into this mutex, and any other
    /// step either holds the mutex or stages the caller's removal.
    pub fn lock(&self, phase: LockPhase, response: Response<N>) -> (r: LockStep<'_, T, N, Q>)
        ensures
            (phase == LockPhase::Staged && response is Staged) ==> (r matches LockStep::Suspend(p, q)
                && p == LockPhase::Filed && q == Request::<N, &Mutex<T, N, Q>>::CompleteUnschedule(
                self,
            )),
            !(phase == LockPhase::Staged && response is Staged) ==> match r {
                LockStep::Acquired(g) => g.owner() == *self,
                LockStep::Suspend(p, q) => p == LockPhase::Staged && q == Request::<
                    N,
                    &Mutex<T, N, Q>,
                >::StageUnschedule,
            },
    {
        let mut l = self.queue_lock.lock();
        let (next, action) = l.deref_mut().lock_next(phase, response);
        match action {
            // `held` was false, so the previous holder let the value go already
            // (see `MutexGuard::unlock`): this does not wait.
            LockAction::Acquired => LockStep::Acquired(MutexGuard { lock: self, data: self.data.lock() }),
            LockAction::Stage => LockStep::Suspend(next, Request::StageUnschedule),
            LockAction::Complete => LockStep::Suspend(next, Request::CompleteUnschedule(self)),
        }
    }
}

impl<'a, T, N, Q: Queue<N>> MutexGuard<'a, T, N, Q> {
    /// The mutex this guard holds.
    pub closed spec fn owner(&self) -> Mutex<T, N, Q> {
        *self.lock
    }

    /// The guarded value.
    pub fn get(&self) -> &T {
        self.data.deref()
    }

    /// The guarded value, for change.
    pub fn get_mut(&mut self) -> &mut T {
        self.data.deref_mut()
    }

    /// Releases the mutex. Returns the node of the context to wake, which the
    /// caller hands to its scheduler with `Request::Schedule`.
    pub fn unlock(self) -> (r: Option<N>) {
        let lock = self.lock;
        // The value is let go before the mutex is freed, so that the next
        // holder finds it unlocked.
        {
            let _released = self.data;
        }
        let mut l = lock.queue_lock.lock();
        l.deref_mut().release()
    }
}

/// A blocked context's node is delivered to the mutex's wait queue; it is
/// handed back when the mutex was released meanwhile.
impl<'a, T, N, Q: Queue<N>> WaitQueue<N> for &'a Mutex<T, N, Q> {
    fn file(&self, node: N) -> (r: Option<N>) {
        (**self).park(node)
    }
}

impl<'a, T, N, Q: Queue<N>> Deref for MutexGuard<'a, T, N, Q> {
    type Target = T;

    fn deref(&self) -> &T {
        self.get()
    }
}

impl<'a, T, N, Q: Queue<N>> DerefMut for MutexGuard<'a, T, N, Q> {
    fn deref_mut(&mut self) -> &mut T {
        self.get_mut()
    }
}

} // verus!
