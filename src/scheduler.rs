use crate::queue::Queue;
use core::marker::PhantomData;
use vstd::prelude::*;

verus! {

/// What a suspended context asks of the scheduler that drives it. `W` is where
/// a context that removes itself wants its node to go.
pub enum Request<N, W> {
    /// Go to the back of the ready queue.
    Yield,
    /// Announce removal of the running context. It stays at the front of the
    /// ready queue, and keeps running, until the removal is completed.
    StageUnschedule,
    /// Put the given node on the ready queue.
    Schedule(N),
    /// Complete a staged removal: now that the context has suspended, its node
    /// leaves the ready queue and is delivered to the given wait queue.
    CompleteUnschedule(W),
}

/// What the scheduler hands to the context it resumes next.
pub enum Response<N> {
    Nothing,
    /// The removal is staged: a token, which the context redeems by completing
    /// the removal.
    Staged,
    /// A node whose ownership passes to the receiver.
    Unscheduled(N),
}

/// A place a suspended context's node can be delivered to.
pub trait WaitQueue<N> {
    /// Takes `node` in, or hands it back when it should run again at once
    /// (what was waited for happened meanwhile).
    fn file(&self, node: N) -> (r: Option<N>)
        ensures
            r matches Some(n) ==> n == node,
    ;
}

/// The ready queue after the front context yields: it moves to the back.
pub open spec fn after_yield<N>(ready: Seq<N>) -> Seq<N> {
    if ready.len() == 0 {
        ready
    } else {
        ready.drop_first().push(ready[0])
    }
}

/// One step of the run loop: from the ready queue, whether a removal is staged,
/// and what the running context did (`None`: it returned), to the new ready
/// queue, the new staged flag, and the response. The running context is always
/// the front of the ready queue.
///
/// On completing a removal the wait queue is taken here to keep the node; when
/// it hands the node back instead, the outcome is `handed_back_state`.
pub open spec fn next_state<N, W>(ready: Seq<N>, staged: bool, outcome: Option<Request<N, W>>) -> (
    Seq<N>,
    bool,
    Response<N>,
) {
    match outcome {
        Some(Request::Yield) => {
            if staged {
                (ready, true, Response::Nothing)
            } else {
                (after_yield(ready), false, Response::Nothing)
            }
        },
        Some(Request::Schedule(node)) => (ready.push(node), staged, Response::Nothing),
        Some(Request::StageUnschedule) => {
            if !staged && ready.len() > 0 {
                (ready, true, Response::Staged)
            } else {
                (ready, staged, Response::Nothing)
            }
        },
        Some(Request::CompleteUnschedule(_)) => {
            if staged && ready.len() > 0 {
                (ready.drop_first(), false, Response::Nothing)
            } else {
                (ready, false, Response::Nothing)
            }
        },
        None => {
            if ready.len() > 0 {
                (ready.drop_first(), false, Response::Unscheduled(ready[0]))
            } else {
                (ready, false, Response::Nothing)
            }
        },
    }
}

/// Completing a removal whose node the wait queue handed back: the node goes
/// to the back of the ready queue.
pub open spec fn handed_back_state<N>(ready: Seq<N>) -> (Seq<N>, bool, Response<N>) {
    (ready.drop_first().push(ready[0]), false, Response::Nothing)
}

/// The ready queue after `k` yields, each by the context that has control.
pub open spec fn after_yields<N>(ready: Seq<N>, k: nat) -> Seq<N>
    decreases k,
{
    if k == 0 {
        ready
    } else {
        next_state(after_yields(ready, (k - 1) as nat), false, Some(Request::<N, ()>::Yield)).0
    }
}

/// Rotating by one more place: the front moves to the back.
proof fn lemma_rotate_step<N>(s: Seq<N>, m: int)
    requires
        0 <= m < s.len(),
    ensures
        ({
            let prev = s.subrange(m, s.len() as int) + s.subrange(0, m);
            let next = if m + 1 < s.len() { m + 1 } else { 0 };
            prev.drop_first().push(prev[0]) == s.subrange(next, s.len() as int) + s.subrange(0, next)
        }),
{
    let n = s.len() as int;
    let prev = s.subrange(m, n) + s.subrange(0, m);
    if m + 1 < n {
        assert(prev.drop_first().push(prev[0]) =~= s.subrange(m + 1, n) + s.subrange(0, m + 1));
    } else {
        assert(prev.drop_first().push(prev[0]) =~= s.subrange(0, n) + s.subrange(0, 0));
    }
}

/// The successor of `k - 1` modulo `n`.
proof fn lemma_mod_successor(k: nat, n: nat)
    requires
        k > 0,
        n > 0,
    ensures
        k % n == if (k - 1) as nat % n + 1 < n { (k - 1) as nat % n + 1 } else { 0 },
{
    let m = (k - 1) as nat % n;
    vstd::arithmetic::div_mod::lemma_add_mod_noop((k - 1) as int, 1, n as int);
    if n > 1 {
        vstd::arithmetic::div_mod::lemma_small_mod(1, n);
    } else {
        vstd::arithmetic::div_mod::lemma_mod_self_0(1);
        vstd::arithmetic::div_mod::lemma_small_mod(0, 1);
    }
    if m + 1 < n {
        vstd::arithmetic::div_mod::lemma_small_mod((m + 1) as nat, n);
    } else {
        vstd::arithmetic::div_mod::lemma_mod_self_0(n as int);
    }
}

/// Round-robin: when every context only yields, control passes through them in
/// the order they were queued, cyclically. After `k` yields the ready queue is
/// the first one rotated by `k`, so the context resumed next is the one that
/// stood at position `k mod n`.
pub proof fn lemma_round_robin<N>(ready: Seq<N>, k: nat)
    requires
        ready.len() > 0,
    ensures
        after_yields(ready, k) == ready.subrange((k % ready.len()) as int, ready.len() as int)
            + ready.subrange(0, (k % ready.len()) as int),
        after_yields(ready, k)[0] == ready[(k % ready.len()) as int],
    decreases k,
{
    let n = ready.len() as int;
    let r = (k % ready.len()) as int;
    let rotated = ready.subrange(r, n) + ready.subrange(0, r);
    if k == 0 {
        vstd::arithmetic::div_mod::lemma_small_mod(0, ready.len());
        assert(rotated =~= ready);
    } else {
        lemma_round_robin(ready, (k - 1) as nat);
        let m = ((k - 1) as nat % ready.len()) as int;
        let prev = after_yields(ready, (k - 1) as nat);
        assert(after_yields(ready, k) == prev.drop_first().push(prev[0]));
        lemma_mod_successor(k, ready.len());
        lemma_rotate_step(ready, m);
    }
    assert(rotated[0] == ready[r]);
}

/// What `k` returns of the running contexts do, one after another, to a ready
/// queue with no staged removal: the ready queue left, and the nodes handed
/// back, in the order they were handed back.
pub open spec fn after_returns<N>(ready: Seq<N>, k: nat) -> (Seq<N>, Seq<N>)
    decreases k,
{
    if k == 0 {
        (ready, Seq::empty())
    } else {
        let (rest, handed) = after_returns(ready, (k - 1) as nat);
        let (next, _, response) = next_state(rest, false, None::<Request<N, ()>>);
        (
            next,
            match response {
                Response::Unscheduled(node) => handed.push(node),
                _ => handed,
            },
        )
    }
}

/// Draining: the first `k` returns hand back the first `k` queued nodes, once
/// each and in queue order, and leave the others queued.
pub proof fn lemma_returns_prefix<N>(ready: Seq<N>, k: nat)
    requires
        k <= ready.len(),
    ensures
        after_returns(ready, k) == (
            ready.subrange(k as int, ready.len() as int),
            ready.subrange(0, k as int),
        ),
    decreases k,
{
    if k == 0 {
        assert(ready.subrange(0, ready.len() as int) =~= ready);
        assert(ready.subrange(0, 0) =~= Seq::<N>::empty());
    } else {
        lemma_returns_prefix(ready, (k - 1) as nat);
        let rest = ready.subrange(k - 1, ready.len() as int);
        assert(rest.drop_first() =~= ready.subrange(k as int, ready.len() as int));
        assert(ready.subrange(0, k - 1).push(rest[0]) =~= ready.subrange(0, k as int));
    }
}

/// Completion draining: when every context returns without a further request,
/// the run loop is over after one step per context (the ready queue is empty
/// and no removal is staged), and every node was handed back exactly once, in
/// queue order, never dropped and never twice.
pub proof fn lemma_completion_draining<N>(ready: Seq<N>)
    ensures
        after_returns(ready, ready.len()) == (Seq::<N>::empty(), ready),
        next_state(after_returns(ready, ready.len()).0, false, None::<Request<N, ()>>) == (
            Seq::<N>::empty(),
            false,
            Response::<N>::Nothing,
        ),
{
    lemma_returns_prefix(ready, ready.len());
    assert(ready.subrange(ready.len() as int, ready.len() as int) =~= Seq::<N>::empty());
    assert(ready.subrange(0, ready.len() as int) =~= ready);
}

/// The nodes that `events` schedule, in order.
pub open spec fn scheduled<N>(events: Seq<Option<N>>) -> Seq<N>
    decreases events.len(),
{
    if events.len() == 0 {
        Seq::empty()
    } else {
        match events.last() {
            Some(node) => scheduled(events.drop_last()).push(node),
            None => scheduled(events.drop_last()),
        }
    }
}

/// What `events` of the running contexts do to a ready queue with no staged
/// removal, one after another: `None` is a return, `Some(node)` a request to
/// schedule `node`. The ready queue left, and the nodes handed back.
pub open spec fn after_events<N>(ready: Seq<N>, events: Seq<Option<N>>) -> (Seq<N>, Seq<N>)
    decreases events.len(),
{
    if events.len() == 0 {
        (ready, Seq::empty())
    } else {
        let (rest, handed) = after_events(ready, events.drop_last());
        match events.last() {
            Some(node) => (next_state(rest, false, Some(Request::<N, ()>::Schedule(node))).0, handed),
            None => {
                let (next, _, response) = next_state(rest, false, None::<Request<N, ()>>);
                (
                    next,
                    match response {
                        Response::Unscheduled(node) => handed.push(node),
                        _ => handed,
                    },
                )
            },
        }
    }
}

/// The multiset equation of `lemma_nodes_conserved` for `events`, from the
/// one for all but the last event, by counting each node.
proof fn lemma_counts_match<N>(ready: Seq<N>, events: Seq<Option<N>>)
    requires
        events.len() > 0,
        ({
            let (rest, handed) = after_events(ready, events.drop_last());
            let (next, out) = after_events(ready, events);
            &&& rest.to_multiset().add(handed.to_multiset()) == ready.to_multiset().add(
                scheduled(events.drop_last()).to_multiset(),
            )
            &&& match events.last() {
                Some(node) => next.to_multiset() == rest.to_multiset().insert(node) && out
                    == handed && scheduled(events).to_multiset() == scheduled(
                    events.drop_last(),
                ).to_multiset().insert(node),
                None => scheduled(events) == scheduled(events.drop_last()) && (rest.len() > 0
                    ==> rest.to_multiset() == next.to_multiset().insert(rest[0])
                    && out.to_multiset() == handed.to_multiset().insert(rest[0])) && (rest.len()
                    == 0 ==> next == rest && out == handed),
            }
        }),
    ensures
        after_events(ready, events).0.to_multiset().add(after_events(ready, events).1.to_multiset())
            == ready.to_multiset().add(scheduled(events).to_multiset()),
{
    broadcast use vstd::multiset::group_multiset_axioms;

    let (rest, handed) = after_events(ready, events.drop_last());
    let (next, out) = after_events(ready, events);
    let before = rest.to_multiset().add(handed.to_multiset());
    let lhs = next.to_multiset().add(out.to_multiset());
    let rhs = ready.to_multiset().add(scheduled(events).to_multiset());
    assert forall|x: N| #[trigger] lhs.count(x) == rhs.count(x) by {
        assert(before.count(x) == ready.to_multiset().add(
            scheduled(events.drop_last()).to_multiset(),
        ).count(x));
    }
    assert(lhs =~= rhs);
}

/// Completion draining, with contexts that schedule others on the way: every
/// node queued at the start or scheduled later is either still queued or was
/// handed back on its return, once, never twice and never lost. So once as
/// many nodes were handed back as were queued and scheduled, the ready queue
/// is empty and the run loop is over.
pub proof fn lemma_nodes_conserved<N>(ready: Seq<N>, events: Seq<Option<N>>)
    ensures
        after_events(ready, events).0.to_multiset().add(after_events(ready, events).1.to_multiset())
            == ready.to_multiset().add(scheduled(events).to_multiset()),
        after_events(ready, events).0.len() + after_events(ready, events).1.len() == ready.len()
            + scheduled(events).len(),
        after_events(ready, events).1.len() == ready.len() + scheduled(events).len() ==> next_state(
            after_events(ready, events).0,
            false,
            None::<Request<N, ()>>,
        ) == (Seq::<N>::empty(), false, Response::<N>::Nothing),
    decreases events.len(),
{
    broadcast use vstd::seq_lib::group_to_multiset_ensures, vstd::multiset::group_multiset_axioms;

    if events.len() > 0 {
        lemma_nodes_conserved(ready, events.drop_last());
        let (rest, handed) = after_events(ready, events.drop_last());
        assert(rest.to_multiset().add(handed.to_multiset()) == ready.to_multiset().add(
            scheduled(events.drop_last()).to_multiset(),
        ));
        match events.last() {
            Some(node) => {
                assert(after_events(ready, events) == (rest.push(node), handed));
                assert(scheduled(events) == scheduled(events.drop_last()).push(node));
                assert(rest.push(node).to_multiset() == rest.to_multiset().insert(node));
                assert(scheduled(events).to_multiset() == scheduled(events.drop_last()).to_multiset().insert(
                    node,
                ));
                lemma_counts_match(ready, events);
            },
            None => {
                assert(scheduled(events) == scheduled(events.drop_last()));
                if rest.len() > 0 {
                    assert(after_events(ready, events) == (rest.drop_first(), handed.push(rest[0])));
                    assert(handed.push(rest[0]).to_multiset() == handed.to_multiset().insert(rest[0]));
                    assert(rest =~= seq![rest[0]] + rest.drop_first());
                    vstd::seq_lib::lemma_multiset_commutative(seq![rest[0]], rest.drop_first());
                    assert(seq![rest[0]] =~= Seq::<N>::empty().push(rest[0]));
                    assert(rest.to_multiset() =~= rest.drop_first().to_multiset().insert(rest[0]));
                    assert(after_events(ready, events).1.to_multiset() == handed.to_multiset().insert(
                        rest[0],
                    ));
                } else {
                    assert(after_events(ready, events) == (rest, handed));
                }
                lemma_counts_match(ready, events);
            },
        }
    }
    if after_events(ready, events).1.len() == ready.len() + scheduled(events).len() {
        assert(after_events(ready, events).0 =~= Seq::<N>::empty());
    }
}

/// A cooperatively scheduled execution context: the handle of its coroutine
/// (which owns its stack), a name for diagnostics, and local data through which
/// a scheduler attaches its own bookkeeping.
pub struct Thread<G, L> {
    coroutine: G,
    name: &'static str,
    local: L,
}

impl<G, L> Thread<G, L> {
    /// The coroutine handle.
    pub closed spec fn handle(&self) -> G {
        self.coroutine
    }

    /// The name, as characters.
    pub closed spec fn label(&self) -> Seq<char> {
        self.name@
    }

    /// The local data.
    pub closed spec fn local_data(&self) -> L {
        self.local
    }

    /// A context around a coroutine that has not started yet, with default
    /// local data.
    pub fn new(coroutine: G, name: &'static str) -> (r: Self)
        where
            L: Default,
        ensures
            r.handle() == coroutine,
            r.label() == name@,
            call_ensures(L::default, (), r.local_data()),
    {
        Thread { coroutine, name, local: L::default() }
    }

    /// The name given at creation.
    pub fn name(&self) -> (r: &'static str)
        ensures
            r@ == self.label(),
    {
        self.name
    }

    /// Read access to the local data.
    pub fn local(&self) -> (r: &L)
        ensures
            *r == self.local_data(),
    {
        &self.local
    }

    /// The coroutine handle, to switch into it. Name and local data stay.
    pub fn coroutine_mut(&mut self) -> (r: &mut G)
        ensures
            *r == old(self).handle(),
            final(self).handle() == *final(r),
            final(self).label() == old(self).label(),
            final(self).local_data() == old(self).local_data(),
    {
        &mut self.coroutine
    }
}

/// The storage-friendly wrapper that queues hold; it owns one context.
pub trait Node<T>: Sized {
    /// The context owned.
    spec fn thread_spec(&self) -> T;

    fn new(t: T) -> (r: Self)
        ensures
            r.thread_spec() == t,
    ;

    fn thread(&self) -> (r: &T)
        ensures
            *r == self.thread_spec(),
    ;

    fn thread_mut(&mut self) -> (r: &mut T)
        ensures
            *r == old(self).thread_spec(),
            final(self).thread_spec() == *final(r),
    ;
}

/// A heap cell is a node: moving it moves the pointer, not the context.
impl<T> Node<T> for Box<T> {
    open spec fn thread_spec(&self) -> T {
        **self
    }

    fn new(t: T) -> (r: Self) {
        Box::new(t)
    }

    fn thread(&self) -> (r: &T) {
        &**self
    }

    fn thread_mut(&mut self) -> (r: &mut T) {
        &mut **self
    }
}

/// Memory that a coroutine runs on.
pub trait Stack: Sized {
    /// A stack of `size` bytes.
    fn new(size: usize) -> Self;
}

/// What one use of the scheduler fixes: the local data of each context, the
/// stacks, the coroutine handles, and the node that wraps a context. The
/// library's own items are generic over these types one by one; this trait
/// names a consistent choice of them for a program to refer to.
pub trait Unit: Sized {
    type L: Default;
    type S: Stack;
    type G;
    type N: Node<Thread<Self::G, Self::L>>;
}

/// Owns the ready queue. When no removal is staged, its front is the context
/// that has control.
pub struct Scheduler<N, Q: Queue<N>> {
    queue: Q,
    staged: bool,
    marker: PhantomData<N>,
}

impl<N, Q: Queue<N>> Scheduler<N, Q> {
    /// The ready queue, front first.
    pub closed spec fn ready(&self) -> Seq<N> {
        self.queue.items()
    }

    /// Whether the running context has staged its own removal.
    pub closed spec fn staged(&self) -> bool {
        self.staged
    }

    /// Creates a scheduler with the given ready queue.
    pub fn new(queue: Q) -> (r: Self)
        ensures
            r.ready() == queue.items(),
            !r.staged(),
    {
        Scheduler { queue, staged: false, marker: PhantomData }
    }

    /// Interprets what the running context did (`None`: it returned) and
    /// computes the response for the next resumption. A completed removal
    /// delivers the front node to the wait queue the context named; if that
    /// hands it back, it goes to the back of the ready queue.
    pub fn step<W: WaitQueue<N>>(&mut self, outcome: Option<Request<N, W>>) -> (r: Response<N>)
        ensures
            (final(self).ready(), final(self).staged(), r) == next_state(
                old(self).ready(),
                old(self).staged(),
                outcome,
            ) || (outcome matches Some(Request::CompleteUnschedule(_)) && old(self).staged()
                && old(self).ready().len() > 0 && (final(self).ready(), final(self).staged(), r)
                == handed_back_state(old(self).ready())),
    {
        match outcome {
            Some(Request::Yield) => {
                if !self.staged {
                    if let Some(node) = self.queue.pop() {
                        self.queue.push(node);
                    }
                }
                Response::Nothing
            },
            Some(Request::Schedule(node)) => {
                self.queue.push(node);
                Response::Nothing
            },
            Some(Request::StageUnschedule) => {
                if !self.staged && !self.queue.is_empty() {
                    self.staged = true;
                    Response::Staged
                } else {
                    Response::Nothing
                }
            },
            Some(Request::CompleteUnschedule(target)) => {
                if self.staged {
                    if let Some(node) = self.queue.pop() {
                        if let Some(back) = target.file(node) {
                            self.queue.push(back);
                        }
                    }
                }
                self.staged = false;
                Response::Nothing
            },
            None => {
                self.staged = false;
                match self.queue.pop() {
                    Some(node) => Response::Unscheduled(node),
                    None => Response::Nothing,
                }
            },
        }
    }

    /// Whether the running context has staged its own removal.
    pub fn is_staged(&self) -> (r: bool)
        ensures
            r == self.staged(),
    {
        self.staged
    }

    /// Whether the run loop is over: nothing is ready and no context is
    /// between the two phases of its removal.
    pub fn is_done(&self) -> (r: bool)
        ensures
            r == (self.ready().len() == 0 && !self.staged()),
    {
        !self.staged && self.queue.is_empty()
    }

    /// The node of the context that has control: the front of the ready queue.
    pub fn current_node(&self) -> (r: Option<&N>)
        ensures
            self.ready().len() == 0 ==> r is None,
            self.ready().len() > 0 ==> r == Some(&self.ready()[0]),
    {
        self.queue.front()
    }

    /// Mutable access to the node of the context that has control, the front
    /// of the ready queue: the run loop resumes it through this.
    pub fn current_node_mut(&mut self) -> (r: Option<&mut N>)
        ensures
            final(self).staged() == old(self).staged(),
            old(self).ready().len() == 0 ==> r is None && final(self).ready() == old(self).ready(),
            old(self).ready().len() > 0 ==> r is Some && *r->0 == old(self).ready()[0]
                && final(self).ready() == old(self).ready().update(0, *final(r->0)),
    {
        self.queue.front_mut()
    }
}

} // verus!
