//! The task registry: generation allocation, per-task records, and the
//! dispatch decisions of the result pump.
//!
//! Each submitted request is tagged with a fresh generation.  The
//! registry records the generation until exactly one of three things
//! happens: the result pump delivers the result to the callback, the
//! caller cancels the task, or the whole core shuts down.  The abort
//! handles and the callbacks themselves are opaque to this model; the
//! surrounding runtime keeps them keyed by the very generations this
//! registry hands out, and obeys the decisions (`Deliver`,
//! `AlreadyRemoved`, the list of tasks to abort) returned here.
//!
//! The abstract state is a [`RegistryView`]; every mutating operation
//! is pinned to a transition predicate over that view, and the laws at
//! the end of the module are proved over arbitrary interleavings
//! (traces) of those transitions.

use vstd::prelude::*;

verus! {

/// Abstract state of the registry.
///
/// `live` holds the generations with an outstanding record;
/// `delivered` the generations whose callback has been invoked;
/// `dropped` the generations removed without notification (explicit
/// cancel, or shutdown).
#[verifier::ext_equal]
pub struct RegistryView {
    pub next: u64,
    pub live: Set<u64>,
    pub delivered: Set<u64>,
    pub dropped: Set<u64>,
}

impl RegistryView {
    /// Every generation this registry has ever allocated.
    pub open spec fn used(self) -> Set<u64> {
        self.live.union(self.delivered).union(self.dropped)
    }

    pub open spec fn wf(self) -> bool {
        &&& forall|g: u64| self.used().contains(g) ==> g < self.next
        &&& self.live.disjoint(self.delivered)
        &&& self.live.disjoint(self.dropped)
        &&& self.delivered.disjoint(self.dropped)
    }
}

/// Allocation of a fresh generation for a newly submitted request.
pub open spec fn register_step(pre: RegistryView, post: RegistryView, g: u64) -> bool {
    &&& pre.next < u64::MAX
    &&& g == pre.next
    &&& post.next == pre.next + 1
    &&& post.live =~= pre.live.insert(g)
    &&& post.delivered =~= pre.delivered
    &&& post.dropped =~= pre.dropped
}

/// Allocation of a generation that will never carry a task record:
/// the session identifier minted by `connect_chat` comes from the
/// same counter as the task generations, so no two ever collide.
pub open spec fn reserve_step(pre: RegistryView, post: RegistryView, g: u64) -> bool {
    &&& pre.next < u64::MAX
    &&& g == pre.next
    &&& post.next == pre.next + 1
    &&& post.live =~= pre.live
    &&& post.delivered =~= pre.delivered
    &&& post.dropped =~= pre.dropped.insert(g)
}

/// Explicit cancellation by the caller.  When the record is present it
/// is removed and the callback is dropped silently.
pub open spec fn cancel_step(pre: RegistryView, post: RegistryView, g: u64, found: bool) -> bool {
    &&& found == pre.live.contains(g)
    &&& post.next == pre.next
    &&& post.delivered =~= pre.delivered
    &&& if found {
        &&& post.live =~= pre.live.remove(g)
        &&& post.dropped =~= pre.dropped.insert(g)
    } else {
        &&& post.live =~= pre.live
        &&& post.dropped =~= pre.dropped
    }
}

/// The result pump consuming one arriving result envelope.  The
/// callback is invoked exactly when the record is still present.
pub open spec fn complete_step(
    pre: RegistryView,
    post: RegistryView,
    g: u64,
    delivered: bool,
) -> bool {
    &&& delivered == pre.live.contains(g)
    &&& post.next == pre.next
    &&& post.dropped =~= pre.dropped
    &&& if delivered {
        &&& post.live =~= pre.live.remove(g)
        &&& post.delivered =~= pre.delivered.insert(g)
    } else {
        &&& post.live =~= pre.live
        &&& post.delivered =~= pre.delivered
    }
}

/// Global shutdown: every outstanding task is aborted and its callback
/// dropped.
pub open spec fn shutdown_step(pre: RegistryView, post: RegistryView) -> bool {
    &&& post.next == pre.next
    &&& post.live =~= Set::<u64>::empty()
    &&& post.delivered =~= pre.delivered
    &&& post.dropped =~= pre.dropped.union(pre.live)
}

/// Any single registry transition.
pub open spec fn registry_step(pre: RegistryView, post: RegistryView) -> bool {
    ||| exists|g: u64| register_step(pre, post, g)
    ||| exists|g: u64| reserve_step(pre, post, g)
    ||| exists|g: u64, found: bool| cancel_step(pre, post, g, found)
    ||| exists|g: u64, delivered: bool| complete_step(pre, post, g, delivered)
    ||| shutdown_step(pre, post)
}

/// A trace: a sequence of states connected by registry transitions.
pub open spec fn registry_trace(t: Seq<RegistryView>) -> bool {
    &&& t.len() >= 1
    &&& t[0].wf()
    &&& forall|i: int| 1 <= i < t.len() ==> registry_step(t[i - 1], #[trigger] t[i])
}

pub proof fn lemma_step_preserves_wf(pre: RegistryView, post: RegistryView)
    requires
        pre.wf(),
        registry_step(pre, post),
    ensures
        post.wf(),
        pre.next <= post.next,
        pre.delivered.subset_of(post.delivered),
        pre.dropped.subset_of(post.dropped),
{
    if exists|g: u64| register_step(pre, post, g) {
        let g = choose|g: u64| register_step(pre, post, g);
        assert(!pre.delivered.contains(g) && !pre.dropped.contains(g)) by {
            if pre.delivered.contains(g) || pre.dropped.contains(g) {
                assert(pre.used().contains(g));
            }
        }
        assert forall|x: u64| post.used().contains(x) implies x < post.next by {
            if x != g {
                assert(pre.used().contains(x));
            }
        }
    } else if exists|g: u64| reserve_step(pre, post, g) {
        let g = choose|g: u64| reserve_step(pre, post, g);
        assert(!pre.delivered.contains(g) && !pre.live.contains(g)) by {
            if pre.delivered.contains(g) || pre.live.contains(g) {
                assert(pre.used().contains(g));
            }
        }
        assert forall|x: u64| post.used().contains(x) implies x < post.next by {
            if x != g {
                assert(pre.used().contains(x));
            }
        }
    } else if exists|g: u64, found: bool| cancel_step(pre, post, g, found) {
        let (g, found) = choose|g: u64, found: bool| cancel_step(pre, post, g, found);
        if found {
            assert(!pre.delivered.contains(g));
        }
        assert forall|x: u64| post.used().contains(x) implies x < post.next by {
            assert(pre.used().contains(x));
        }
    } else if exists|g: u64, delivered: bool| complete_step(pre, post, g, delivered) {
        let (g, delivered) = choose|g: u64, delivered: bool| complete_step(pre, post, g, delivered);
        if delivered {
            assert(!pre.dropped.contains(g));
        }
        assert forall|x: u64| post.used().contains(x) implies x < post.next by {
            assert(pre.used().contains(x));
        }
    } else {
        assert(shutdown_step(pre, post));
        assert forall|x: u64| post.used().contains(x) implies x < post.next by {
            assert(pre.used().contains(x));
        }
    }
}

pub proof fn lemma_trace_wf(t: Seq<RegistryView>, i: int)
    requires
        registry_trace(t),
        0 <= i < t.len(),
    ensures
        t[i].wf(),
    decreases i,
{
    if i > 0 {
        lemma_trace_wf(t, i - 1);
        lemma_step_preserves_wf(t[i - 1], t[i]);
    }
}

pub proof fn lemma_trace_next_monotone(t: Seq<RegistryView>, i: int, j: int)
    requires
        registry_trace(t),
        0 <= i <= j < t.len(),
    ensures
        t[i].next <= t[j].next,
    decreases j - i,
{
    if i < j {
        lemma_trace_next_monotone(t, i, j - 1);
        lemma_trace_wf(t, j - 1);
        lemma_step_preserves_wf(t[j - 1], t[j]);
    }
}

/// Once a generation has been settled — delivered or dropped — it never
/// returns to the live set, stays settled the same way, and is never
/// settled the other way.
pub proof fn lemma_settled_stays(t: Seq<RegistryView>, g: u64, i: int, j: int)
    requires
        registry_trace(t),
        0 <= i <= j < t.len(),
        t[i].delivered.contains(g) || t[i].dropped.contains(g),
    ensures
        !t[j].live.contains(g),
        t[i].delivered.contains(g) ==> t[j].delivered.contains(g) && !t[j].dropped.contains(g),
        t[i].dropped.contains(g) ==> t[j].dropped.contains(g) && !t[j].delivered.contains(g),
    decreases j - i,
{
    lemma_trace_wf(t, i);
    if i == j {
    } else {
        lemma_settled_stays(t, g, i, j - 1);
        lemma_trace_wf(t, j - 1);
        let pre = t[j - 1];
        let post = t[j];
        lemma_step_preserves_wf(pre, post);
        if exists|x: u64| register_step(pre, post, x) {
            let x = choose|x: u64| register_step(pre, post, x);
            assert(pre.used().contains(g));
        } else if exists|x: u64| reserve_step(pre, post, x) {
            let x = choose|x: u64| reserve_step(pre, post, x);
            assert(pre.used().contains(g));
        }
    }
}

/// Any step that mints a generation: a task registration or a session
/// reservation.
pub open spec fn alloc_step(pre: RegistryView, post: RegistryView, g: u64) -> bool {
    register_step(pre, post, g) || reserve_step(pre, post, g)
}

/// Generation uniqueness: two allocations anywhere in a trace hand out
/// two distinct generations — N submissions receive N distinct
/// generations, and a session identifier never collides with a task's.
pub proof fn lemma_generation_uniqueness(
    t: Seq<RegistryView>,
    i: int,
    j: int,
    gi: u64,
    gj: u64,
)
    requires
        registry_trace(t),
        0 <= i < j < t.len() - 1,
        alloc_step(t[i], t[i + 1], gi),
        alloc_step(t[j], t[j + 1], gj),
    ensures
        gi != gj,
{
    lemma_trace_next_monotone(t, i + 1, j);
}

/// A callback fires at most once: the result pump cannot decide to
/// deliver the same generation at two points of a trace.
pub proof fn lemma_callback_at_most_once(
    t: Seq<RegistryView>,
    i: int,
    j: int,
    g: u64,
)
    requires
        registry_trace(t),
        0 <= i < j < t.len() - 1,
        complete_step(t[i], t[i + 1], g, true),
    ensures
        !complete_step(t[j], t[j + 1], g, true),
{
    lemma_settled_stays(t, g, i + 1, j);
}

/// The cancel race: when `cancel(g)` succeeds, the callback for `g`
/// can never fire afterwards.
pub proof fn lemma_cancel_silences(
    t: Seq<RegistryView>,
    i: int,
    j: int,
    g: u64,
    delivered: bool,
)
    requires
        registry_trace(t),
        0 <= i < j < t.len() - 1,
        cancel_step(t[i], t[i + 1], g, true),
        complete_step(t[j], t[j + 1], g, delivered),
    ensures
        !delivered,
{
    lemma_settled_stays(t, g, i + 1, j);
}

/// Cancel is idempotent: after a successful `cancel(g)`, a later
/// `cancel(g)` reports that the task is unknown.
pub proof fn lemma_cancel_idempotent(
    t: Seq<RegistryView>,
    i: int,
    j: int,
    g: u64,
    found: bool,
)
    requires
        registry_trace(t),
        0 <= i < j < t.len() - 1,
        cancel_step(t[i], t[i + 1], g, true),
        cancel_step(t[j], t[j + 1], g, found),
    ensures
        !found,
{
    lemma_settled_stays(t, g, i + 1, j);
}

/// Result of a cancellation request.
#[derive(Clone, Copy, Debug, PartialEq, Eq, Structural)]
pub enum CancelError {
    /// No record with this generation exists: the callback has already
    /// been dispatched, the task was cancelled before, or the
    /// generation was never allocated.
    NotFound,
}

/// Decision of the result pump for one arriving result envelope.
#[derive(Clone, Copy, Debug, PartialEq, Eq, Structural)]
pub enum DispatchDecision {
    /// The record was present: remove it, abort the task handle and
    /// invoke the callback with this one envelope.
    Deliver,
    /// The record was already removed (cancel or shutdown won the
    /// race): the result is dropped, no callback runs.
    AlreadyRemoved,
}

/// The registry itself.  The live generations are kept in increasing
/// order of allocation; the `delivered` and `dropped` sets are ghost
/// bookkeeping that ties the executable operations to the model.
pub struct TaskRegistry {
    next_generation: u64,
    live: Vec<u64>,
    delivered: Ghost<Set<u64>>,
    dropped: Ghost<Set<u64>>,
}

impl TaskRegistry {
    pub closed spec fn view(&self) -> RegistryView {
        RegistryView {
            next: self.next_generation,
            live: self.live@.to_set(),
            delivered: self.delivered@,
            dropped: self.dropped@,
        }
    }

    /// The live vector is strictly increasing (hence duplicate-free)
    /// and the abstract view is well-formed.
    pub closed spec fn wf(&self) -> bool {
        &&& forall|i: int, j: int|
            0 <= i < j < self.live@.len() ==> #[trigger] self.live@[i] < #[trigger] self.live@[j]
        &&& self@.wf()
    }

    pub fn new() -> (r: TaskRegistry)
        ensures
            r.wf(),
            r@ =~= (RegistryView {
                next: 0,
                live: Set::empty(),
                delivered: Set::empty(),
                dropped: Set::empty(),
            }),
    {
        let r = TaskRegistry {
            next_generation: 0,
            live: Vec::new(),
            delivered: Ghost(Set::empty()),
            dropped: Ghost(Set::empty()),
        };
        proof {
            assert(r.live@.to_set() =~= Set::<u64>::empty());
        }
        r
    }

    /// How many tasks are outstanding.
    pub fn outstanding(&self) -> (n: usize)
        requires
            self.wf(),
        ensures
            n == self@.live.len(),
    {
        proof {
            self.live@.unique_seq_to_set();
        }
        self.live.len()
    }

    /// Allocate a fresh generation and record the new task under it.
    ///
    /// The caller must install the abort handle and the callback under
    /// the returned generation before the task is allowed to publish a
    /// result; the start-gate ordering is the runtime's duty.
    pub fn register(&mut self) -> (g: u64)
        requires
            old(self).wf(),
            old(self)@.next < u64::MAX,
        ensures
            final(self).wf(),
            register_step(old(self)@, final(self)@, g),
    {
        let g = self.next_generation;
        self.next_generation = g + 1;
        self.live.push(g);
        proof {
            assert(self.live@.to_set() =~= old(self).live@.to_set().insert(g)) by {
                assert forall|x: u64| self.live@.to_set().contains(x)
                    implies old(self).live@.to_set().insert(g).contains(x) by {
                    let k = choose|k: int| 0 <= k < self.live@.len() && self.live@[k] == x;
                    if k < self.live@.len() - 1 {
                        assert(old(self).live@[k] == x);
                    }
                };
                assert forall|x: u64| old(self).live@.to_set().insert(g).contains(x)
                    implies self.live@.to_set().contains(x) by {
                    if x == g {
                        assert(self.live@[self.live@.len() - 1] == x);
                    } else {
                        let k = choose|k: int|
                            0 <= k < old(self).live@.len() && old(self).live@[k] == x;
                        assert(self.live@[k] == x);
                    }
                };
            }
            assert(!old(self)@.delivered.contains(g) && !old(self)@.dropped.contains(g)
                && !old(self)@.live.contains(g)) by {
                if old(self)@.delivered.contains(g) || old(self)@.dropped.contains(g)
                    || old(self)@.live.contains(g) {
                    assert(old(self)@.used().contains(g));
                    assert(g < old(self)@.next);
                }
            }
            assert forall|x: u64| self@.used().contains(x) implies x < self@.next by {
                if x != g {
                    assert(old(self)@.used().contains(x));
                }
            }
            assert forall|i: int, j: int|
                0 <= i < j < self.live@.len() implies #[trigger] self.live@[i] < #[trigger] self.live@[j] by {
                if j == self.live@.len() - 1 {
                    assert(old(self)@.used().contains(self.live@[i]));
                }
            }
        }
        g
    }

    /// Allocate a fresh generation that will never carry a record,
    /// for tagging a session rather than a task.
    pub fn reserve(&mut self) -> (g: u64)
        requires
            old(self).wf(),
            old(self)@.next < u64::MAX,
        ensures
            final(self).wf(),
            reserve_step(old(self)@, final(self)@, g),
    {
        let g = self.next_generation;
        self.next_generation = g + 1;
        proof {
            self.dropped@ = self.dropped@.insert(g);
            assert(!old(self)@.delivered.contains(g) && !old(self)@.live.contains(g)) by {
                if old(self)@.delivered.contains(g) || old(self)@.live.contains(g) {
                    assert(old(self)@.used().contains(g));
                }
            }
            assert forall|x: u64| self@.used().contains(x) implies x < self@.next by {
                if x != g {
                    assert(old(self)@.used().contains(x));
                }
            }
        }
        g
    }

    /// The generation the next allocation will return.
    pub fn peek_next(&self) -> (g: u64)
        ensures
            g == self@.next,
    {
        self.next_generation
    }

    /// Remove the record for `generation` and abort the task.  When the
    /// record is gone the callback is dropped silently; `NotFound`
    /// means the callback has already been dispatched or the task was
    /// cancelled before.
    pub fn cancel(&mut self, generation: u64) -> (r: Result<(), CancelError>)
        requires
            old(self).wf(),
        ensures
            final(self).wf(),
            cancel_step(old(self)@, final(self)@, generation, r is Ok),
            r is Err ==> r == Result::<(), CancelError>::Err(CancelError::NotFound),
    {
        match self.take_live(generation) {
            true => {
                proof {
                    self.dropped@ = self.dropped@.insert(generation);
                    assert(old(self)@.used().contains(generation));
                    assert forall|x: u64| self@.used().contains(x) implies x < self@.next by {
                        assert(old(self)@.used().contains(x));
                    }
                }
                Ok(())
            },
            false => Err(CancelError::NotFound),
        }
    }

    /// The result pump's decision for one arriving envelope tagged with
    /// `generation`.
    pub fn complete(&mut self, generation: u64) -> (d: DispatchDecision)
        requires
            old(self).wf(),
        ensures
            final(self).wf(),
            complete_step(old(self)@, final(self)@, generation, d == DispatchDecision::Deliver),
    {
        match self.take_live(generation) {
            true => {
                proof {
                    self.delivered@ = self.delivered@.insert(generation);
                    assert(old(self)@.used().contains(generation));
                    assert forall|x: u64| self@.used().contains(x) implies x < self@.next by {
                        assert(old(self)@.used().contains(x));
                    }
                }
                DispatchDecision::Deliver
            },
            false => DispatchDecision::AlreadyRemoved,
        }
    }

    /// Abort every outstanding task; the returned generations are the
    /// undelivered ones, whose callbacks are dropped.
    pub fn shutdown(&mut self) -> (aborted: Vec<u64>)
        requires
            old(self).wf(),
        ensures
            final(self).wf(),
            shutdown_step(old(self)@, final(self)@),
            aborted@.to_set() =~= old(self)@.live,
            aborted@.len() == old(self)@.live.len(),
    {
        proof {
            self.live@.unique_seq_to_set();
        }
        let mut aborted: Vec<u64> = Vec::new();
        std::mem::swap(&mut aborted, &mut self.live);
        proof {
            self.dropped@ = self.dropped@.union(aborted@.to_set());
            assert(self.live@.to_set() =~= Set::<u64>::empty());
            assert forall|x: u64| self@.used().contains(x) implies x < self@.next by {
                assert(old(self)@.used().contains(x));
            }
        }
        aborted
    }

    /// Remove `generation` from the live vector if present, moving it
    /// to the `dropped` ghost set; reports whether it was found.
    fn take_live(&mut self, generation: u64) -> (found: bool)
        requires
            old(self).wf(),
        ensures
            final(self).wf(),
            found == old(self)@.live.contains(generation),
            final(self)@.next == old(self)@.next,
            final(self)@.delivered =~= old(self)@.delivered,
            final(self)@.dropped =~= old(self)@.dropped,
            found ==> final(self)@.live =~= old(self)@.live.remove(generation),
            !found ==> final(self)@.live =~= old(self)@.live,
    {
        let n = self.live.len();
        let mut idx: usize = n;
        let mut i: usize = 0;
        while i < n
            invariant
                n == self.live@.len(),
                i <= n,
                idx <= n,
                idx == n ==> forall|k: int| 0 <= k < i ==> self.live@[k] != generation,
                idx < n ==> self.live@[idx as int] == generation,
            decreases n - i,
        {
            if idx == n && self.live[i] == generation {
                idx = i;
            }
            i = i + 1;
        }
        if idx == n {
            proof {
                assert(!old(self)@.live.contains(generation)) by {
                    if old(self).live@.contains(generation) {
                        let k = choose|k: int|
                            0 <= k < old(self).live@.len() && old(self).live@[k] == generation;
                        assert(old(self).live@[k] != generation);
                    }
                }
            }
            false
        } else {
            self.live.remove(idx);
            proof {
                let pre = old(self).live@;
                let post = self.live@;
                assert(old(self)@.live.contains(generation)) by {
                    assert(pre[idx as int] == generation);
                }
                assert(post.to_set() =~= pre.to_set().remove(generation)) by {
                    assert forall|x: u64| post.to_set().contains(x)
                        implies pre.to_set().remove(generation).contains(x) by {
                        let k = choose|k: int| 0 <= k < post.len() && post[k] == x;
                        if k < idx {
                            assert(pre[k] == x);
                            assert(pre[k] != pre[idx as int]);
                        } else {
                            assert(pre[k + 1] == x);
                            assert(pre[k + 1] != pre[idx as int]);
                        }
                    };
                    assert forall|x: u64| pre.to_set().remove(generation).contains(x)
                        implies post.to_set().contains(x) by {
                        let k = choose|k: int| 0 <= k < pre.len() && pre[k] == x;
                        if k < idx {
                            assert(post[k] == x);
                        } else {
                            assert(k != idx);
                            assert(post[k - 1] == x);
                        }
                    };
                }
                assert forall|x: u64| final(self)@.used().contains(x)
                    implies x < final(self)@.next by {
                    assert(old(self)@.used().contains(x));
                }
                assert forall|a: int, b: int|
                    0 <= a < b < post.len() implies #[trigger] post[a] < #[trigger] post[b] by {
                    if b < idx {
                        assert(pre[a] < pre[b]);
                    } else if a < idx {
                        assert(pre[a] < pre[b + 1]);
                    } else {
                        assert(pre[a + 1] < pre[b + 1]);
                    }
                }
            }
            true
        }
    }
}

} // verus!
