//! Device-resource lifetimes and completion tracking.
//!
//! Descriptor sets, command buffers and the uniform buffer are built fresh
//! each frame and referenced by the submitted GPU work until its completion
//! signal fires; none of them may be destroyed or reused before that.  The
//! ledger numbers every live resource, records which ids the single
//! in-flight submission references, refuses to release a resource that is
//! still referenced, and at shutdown releases everything in dependency
//! order: frame-scoped objects first, then device-scoped objects, then the
//! device itself.

use vstd::prelude::*;

verus! {

/// Kind of device resource a handle names.
#[derive(Clone, Copy, PartialEq, Eq, Structural, Debug)]
pub enum HandleKind {
    DescriptorSet,
    CommandBuffer,
    UniformBuffer,
    PresentationChain,
    Pipeline,
    Device,
}

/// Why a release was refused.
#[derive(Clone, Copy, PartialEq, Eq, Structural, Debug)]
pub enum ReleaseError {
    /// The resource is still referenced by in-flight GPU work; wait for
    /// the completion signal first.
    StillInFlight,
    /// No live resource has this id.
    UnknownHandle,
}

/// Destruction rank: frame-scoped objects go before device-scoped objects,
/// which go before the device itself.
pub open spec fn rank(k: HandleKind) -> nat {
    match k {
        HandleKind::DescriptorSet => 0,
        HandleKind::CommandBuffer => 0,
        HandleKind::UniformBuffer => 0,
        HandleKind::PresentationChain => 1,
        HandleKind::Pipeline => 1,
        HandleKind::Device => 2,
    }
}

/// A numbered live device resource.
#[derive(Clone, Copy, PartialEq, Eq, Structural, Debug)]
pub struct Handle {
    pub id: u64,
    pub kind: HandleKind,
}

/// How many of the first `n` elements have destruction rank `r`.
pub open spec fn count_rank(s: Seq<Handle>, r: nat) -> nat
    decreases s.len(),
{
    if s.len() == 0 {
        0
    } else {
        count_rank(s.drop_last(), r) + if rank(s.last().kind) == r {
            1nat
        } else {
            0nat
        }
    }
}

/// No two elements carry the same id.
pub open spec fn ids_distinct(s: Seq<Handle>) -> bool {
    forall|i: int, j: int| 0 <= i < j < s.len() ==> s[i].id != s[j].id
}

/// The ledger of live device resources and of the single in-flight
/// submission.
pub struct Ledger {
    /// Next fresh id; ids are never reused.
    pub next_id: u64,
    /// Every resource currently allocated, in allocation order.
    pub live: Vec<Handle>,
    /// Ids referenced by the in-flight submission.
    pub pending: Vec<u64>,
    /// Whether a submission's completion signal has not fired yet.
    pub in_flight: bool,
}

impl Ledger {
    /// The ledger's invariant: live ids are distinct and below the next
    /// fresh id, and nothing is pending without a submission in flight.
    pub open spec fn wf(self) -> bool {
        &&& ids_distinct(self.live@)
        &&& forall|i: int| 0 <= i < self.live@.len() ==> (#[trigger] self.live@[i].id) < self.next_id
        &&& !self.in_flight ==> self.pending@.len() == 0
    }

    /// A live resource carries this id.
    pub open spec fn live_contains_id(self, id: u64) -> bool {
        exists|i: int| 0 <= i < self.live@.len() && (#[trigger] self.live@[i].id) == id
    }

    /// The in-flight submission still references this id.
    pub open spec fn referenced_by_pending(self, id: u64) -> bool {
        self.in_flight && self.pending@.contains(id)
    }

    /// A release of this id is owed success: the resource is live and no
    /// in-flight work references it.
    pub open spec fn releasable(self, id: u64) -> bool {
        self.live_contains_id(id) && !self.referenced_by_pending(id)
    }

    /// Fresh ledger: nothing allocated, nothing in flight.
    pub fn new() -> (l: Ledger)
        ensures
            l.wf(),
            l.next_id == 0,
            l.live@.len() == 0,
            l.pending@.len() == 0,
            !l.in_flight,
    {
        Ledger { next_id: 0, live: Vec::new(), pending: Vec::new(), in_flight: false }
    }

    /// Allocate a resource of the given kind under a fresh id.
    pub fn allocate(&mut self, kind: HandleKind) -> (h: Handle)
        requires
            old(self).wf(),
            old(self).next_id < u64::MAX,
        ensures
            final(self).wf(),
            h.id == old(self).next_id,
            h.kind == kind,
            final(self).live@ == old(self).live@.push(h),
            final(self).next_id == old(self).next_id + 1,
            final(self).pending == old(self).pending,
            final(self).in_flight == old(self).in_flight,
            final(self).live_contains_id(h.id),
            !old(self).live_contains_id(h.id),
    {
        let h = Handle { id: self.next_id, kind };
        self.live.push(h);
        self.next_id = self.next_id + 1;
        proof {
            let n = self.live@.len() - 1;
            assert(self.live@[n] == h);
            assert(ids_distinct(self.live@)) by {
                assert(forall|i: int|
                    0 <= i < n ==> (#[trigger] self.live@[i].id) == old(self).live@[i].id);
            }
        }
        h
    }

    /// Record a submission: the given ids are referenced by GPU work until
    /// the completion signal fires.  At most one submission is in flight at
    /// a time.
    pub fn submit(&mut self, referenced: Vec<u64>)
        requires
            old(self).wf(),
            !old(self).in_flight,
            forall|i: int|
                0 <= i < referenced@.len() ==> old(self).live_contains_id(
                    #[trigger] referenced@[i],
                ),
        ensures
            final(self).wf(),
            final(self).in_flight,
            final(self).pending@ == referenced@,
            final(self).live == old(self).live,
            final(self).next_id == old(self).next_id,
    {
        self.pending = referenced;
        self.in_flight = true;
    }

    /// Block until the in-flight submission's completion signal fires; a
    /// call with nothing in flight returns at once.  Afterwards no resource
    /// is referenced by pending GPU work any more.
    pub fn wait_completion(&mut self)
        requires
            old(self).wf(),
        ensures
            final(self).wf(),
            !final(self).in_flight,
            final(self).pending@.len() == 0,
            final(self).live == old(self).live,
            final(self).next_id == old(self).next_id,
    {
        self.pending.clear();
        self.in_flight = false;
    }

    /// Release one live resource.  Refused while in-flight work still
    /// references it (wait for the completion signal first) and when no
    /// live resource has the id; otherwise the resource leaves the ledger
    /// and every other resource stays.
    pub fn release(&mut self, id: u64) -> (r: Result<(), ReleaseError>)
        requires
            old(self).wf(),
        ensures
            final(self).wf(),
            final(self).next_id == old(self).next_id,
            final(self).pending == old(self).pending,
            final(self).in_flight == old(self).in_flight,
            r is Ok <==> old(self).releasable(id),
            r is Ok ==> {
                &&& final(self).live@.len() == old(self).live@.len() - 1
                &&& !final(self).live_contains_id(id)
                &&& forall|x: u64|
                    x != id ==> (final(self).live_contains_id(x) <==> old(
                        self,
                    ).live_contains_id(x))
                &&& forall|i: int|
                    0 <= i < final(self).live@.len() ==> old(self).live@.contains(
                        #[trigger] final(self).live@[i],
                    )
            },
            r matches Err(e) ==> {
                &&& *final(self) == *old(self)
                &&& (e is StillInFlight <==> old(self).live_contains_id(id) && old(
                    self,
                ).referenced_by_pending(id))
                &&& (e is UnknownHandle <==> !old(self).live_contains_id(id))
            },
    {
        let n = self.live.len();
        let mut i: usize = 0;
        while i < n
            invariant
                *self == *old(self),
                old(self).wf(),
                n == self.live@.len(),
                i <= n,
                forall|j: int| 0 <= j < i ==> (#[trigger] self.live@[j].id) != id,
            decreases n - i,
        {
            if self.live[i].id == id {
                if self.in_flight && vec_contains_u64(&self.pending, id) {
                    return Err(ReleaseError::StillInFlight);
                }
                let ghost prev = self.live@;
                self.live.remove(i);
                proof {
                    assert(self.live@ == prev.remove(i as int));
                    assert(forall|k: int|
                        0 <= k < i ==> #[trigger] self.live@[k] == prev[k]);
                    assert(forall|k: int|
                        i <= k < self.live@.len() ==> #[trigger] self.live@[k] == prev[k + 1]);
                    assert(ids_distinct(self.live@));
                    assert(!self.live_contains_id(id)) by {
                        if self.live_contains_id(id) {
                            let w = choose|w: int|
                                0 <= w < self.live@.len() && self.live@[w].id == id;
                            if w < i {
                                assert(prev[w].id == id);
                            } else {
                                assert(prev[w + 1].id == id);
                            }
                        }
                    }
                    assert forall|x: u64| x != id implies (self.live_contains_id(x) <==> old(
                        self,
                    ).live_contains_id(x)) by {
                        if self.live_contains_id(x) {
                            let w = choose|w: int|
                                0 <= w < self.live@.len() && self.live@[w].id == x;
                            if w < i {
                                assert(old(self).live@[w].id == x);
                            } else {
                                assert(old(self).live@[w + 1].id == x);
                            }
                        }
                        if old(self).live_contains_id(x) {
                            let w = choose|w: int|
                                0 <= w < prev.len() && prev[w].id == x;
                            if w < i {
                                assert(self.live@[w].id == x);
                            } else {
                                assert(w != i);
                                assert(self.live@[w - 1].id == x);
                            }
                        }
                    }
                    assert forall|k: int| 0 <= k < self.live@.len() implies old(
                        self,
                    ).live@.contains(#[trigger] self.live@[k]) by {
                        if k < i {
                            assert(self.live@[k] == old(self).live@[k]);
                        } else {
                            assert(self.live@[k] == old(self).live@[k + 1]);
                        }
                    }
                }
                return Ok(());
            }
            i = i + 1;
        }
        Err(ReleaseError::UnknownHandle)
    }

    /// Tear everything down after the last frame: wait for the in-flight
    /// submission's completion signal, then release every live resource in
    /// dependency order — descriptor sets, command buffers and buffers
    /// before the chain and the pipeline, and those before the device.
    /// The returned vector is the destruction order: it holds exactly the
    /// resources that were live, with ranks never decreasing, and the
    /// ledger ends empty — zero leaked handles.
    pub fn shutdown(&mut self) -> (order: Vec<Handle>)
        requires
            old(self).wf(),
        ensures
            final(self).wf(),
            !final(self).in_flight,
            final(self).pending@.len() == 0,
            final(self).live@.len() == 0,
            order@.len() == old(self).live@.len(),
            forall|i: int|
                0 <= i < order@.len() ==> old(self).live@.contains(#[trigger] order@[i]),
            forall|i: int|
                0 <= i < old(self).live@.len() ==> order@.contains(#[trigger] old(self).live@[i]),
            forall|i: int, j: int|
                0 <= i < j < order@.len() ==> rank(order@[i].kind) <= rank(order@[j].kind),
    {
        self.wait_completion();
        let mut order: Vec<Handle> = Vec::new();
        collect_rank(&self.live, 0, &mut order);
        let ghost after0 = order@;
        collect_rank(&self.live, 1, &mut order);
        let ghost after1 = order@;
        collect_rank(&self.live, 2, &mut order);
        self.live.clear();
        proof {
            let l = old(self).live@;
            let n0 = after0.len() as int;
            let n1 = after1.len() as int;
            lemma_rank_partition(l);
            assert forall|i: int| 0 <= i < l.len() implies order@.contains(#[trigger] l[i]) by {
                let r = rank(l[i].kind);
                assert(r == 0 || r == 1 || r == 2);
                if r == 0 {
                    assert(after0.contains(l[i]));
                    let w = choose|w: int| 0 <= w < after0.len() && after0[w] == l[i];
                    assert(after1[w] == after0[w]);
                    assert(order@[w] == after1[w]);
                } else if r == 1 {
                    assert(after1.contains(l[i]));
                    let w = choose|w: int| 0 <= w < after1.len() && after1[w] == l[i];
                    assert(order@[w] == after1[w]);
                } else {
                    assert(order@.contains(l[i]));
                }
            }
            assert forall|i: int, j: int|
                0 <= i < j < order@.len() implies rank(order@[i].kind) <= rank(
                order@[j].kind,
            ) by {
                if i < n0 {
                    assert(order@[i] == after1[i]);
                    assert(after1[i] == after0[i]);
                    assert(rank(order@[i].kind) == 0);
                } else if i < n1 {
                    assert(order@[i] == after1[i]);
                    assert(rank(order@[i].kind) == 1);
                } else {
                    assert(rank(order@[i].kind) == 2);
                }
                if j < n0 {
                    assert(order@[j] == after1[j]);
                    assert(after1[j] == after0[j]);
                    assert(rank(order@[j].kind) == 0);
                } else if j < n1 {
                    assert(order@[j] == after1[j]);
                    assert(rank(order@[j].kind) == 1);
                } else {
                    assert(rank(order@[j].kind) == 2);
                }
            }
        }
        order
    }
}

/// Every handle has one of the three destruction ranks, so the three
/// per-rank counts partition the ledger.
proof fn lemma_rank_partition(s: Seq<Handle>)
    ensures
        count_rank(s, 0) + count_rank(s, 1) + count_rank(s, 2) == s.len(),
    decreases s.len(),
{
    if s.len() > 0 {
        lemma_rank_partition(s.drop_last());
        let r = rank(s.last().kind);
        assert(r == 0 || r == 1 || r == 2);
    }
}

/// Scanning one more element adds its rank to exactly one count.
proof fn lemma_count_rank_take_step(s: Seq<Handle>, r: nat, i: int)
    requires
        0 <= i < s.len(),
    ensures
        count_rank(s.take(i + 1), r) == count_rank(s.take(i), r) + if rank(s[i].kind) == r {
            1nat
        } else {
            0nat
        },
{
    let t = s.take(i + 1);
    assert(t.drop_last() =~= s.take(i));
    assert(t.last() == s[i]);
    assert(count_rank(t, r) == count_rank(t.drop_last(), r) + if rank(t.last().kind) == r {
        1nat
    } else {
        0nat
    });
}

/// Append to `order` every element of `live` whose destruction rank is
/// `r`, in ledger order, leaving earlier contents in place.
fn collect_rank(live: &Vec<Handle>, r: u32, order: &mut Vec<Handle>)
    requires
        r <= 2,
    ensures
        final(order)@.len() == old(order)@.len() + count_rank(live@, r as nat),
        forall|k: int|
            0 <= k < old(order)@.len() ==> #[trigger] final(order)@[k] == old(order)@[k],
        forall|k: int|
            old(order)@.len() <= k < final(order)@.len() ==> live@.contains(
                #[trigger] final(order)@[k],
            ) && rank(final(order)@[k].kind) == r as nat,
        forall|k: int|
            0 <= k < live@.len() && rank((#[trigger] live@[k]).kind) == r as nat
                ==> final(order)@.contains(live@[k]),
{
    let n = live.len();
    let mut i: usize = 0;
    proof {
        assert(live@.take(0) =~= Seq::<Handle>::empty());
    }
    while i < n
        invariant
            n == live@.len(),
            i <= n,
            order@.len() == old(order)@.len() + count_rank(live@.take(i as int), r as nat),
            forall|k: int| 0 <= k < old(order)@.len() ==> #[trigger] order@[k] == old(order)@[k],
            forall|k: int|
                old(order)@.len() <= k < order@.len() ==> live@.contains(#[trigger] order@[k])
                    && rank(order@[k].kind) == r as nat,
            forall|k: int|
                0 <= k < i && rank((#[trigger] live@[k]).kind) == r as nat ==> order@.contains(
                    live@[k],
                ),
        decreases n - i,
    {
        proof {
            lemma_count_rank_take_step(live@, r as nat, i as int);
        }
        let ghost pre = order@;
        let h = live[i];
        if rank_exec(h.kind) == r {
            order.push(h);
            proof {
                let m = order@.len() - 1;
                assert(order@[m] == live@[i as int]);
                assert(live@.contains(live@[i as int]));
                assert(order@.contains(live@[i as int]));
            }
        }
        proof {
            assert forall|k: int|
                0 <= k < i + 1 && rank((#[trigger] live@[k]).kind) == r as nat
                implies order@.contains(live@[k]) by {
                if k < i {
                    let w = choose|w: int| 0 <= w < pre.len() && pre[w] == live@[k];
                    assert(order@[w] == live@[k]);
                }
            }
        }
        i = i + 1;
    }
    proof {
        assert(live@.take(n as int) =~= live@);
    }
}

/// Executable destruction rank, matching `rank`.
fn rank_exec(k: HandleKind) -> (n: u32)
    ensures
        n as nat == rank(k),
{
    match k {
        HandleKind::DescriptorSet => 0,
        HandleKind::CommandBuffer => 0,
        HandleKind::UniformBuffer => 0,
        HandleKind::PresentationChain => 1,
        HandleKind::Pipeline => 1,
        HandleKind::Device => 2,
    }
}

/// Whether the id vector holds the given id.
fn vec_contains_u64(v: &Vec<u64>, id: u64) -> (b: bool)
    ensures
        b == v@.contains(id),
{
    let n = v.len();
    let mut i: usize = 0;
    while i < n
        invariant
            n == v@.len(),
            i <= n,
            forall|j: int| 0 <= j < i ==> v@[j] != id,
        decreases n - i,
    {
        if v[i] == id {
            proof {
                assert(v@.contains(id));
            }
            return true;
        }
        i = i + 1;
    }
    false
}

/// A resource referenced by in-flight work is never releasable: the ledger
/// refuses to destroy it before its completion signal fires.
pub proof fn lemma_pending_blocks_release(l: Ledger, id: u64)
    requires
        l.referenced_by_pending(id),
    ensures
        !l.releasable(id),
{
}

/// Once the completion signal has fired, nothing is referenced any more:
/// every live resource may be released.
pub proof fn lemma_completion_enables_release(l: Ledger, id: u64)
    requires
        !l.in_flight,
        l.live_contains_id(id),
    ensures
        l.releasable(id),
{
}

} // verus!
