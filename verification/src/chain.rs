//! Presentation chain manager.
//!
//! The chain is an ordered, fixed-size ring of presentable images.  At any
//! instant at most one image is acquired (owned by the scheduler for
//! writing); the others are either presenting (owned by the display) or
//! free.  When the surface changes shape or the presentation engine reports
//! staleness, the chain is invalidated as a unit and must be rebuilt as a
//! whole before further use — staleness is never fatal.

use crate::error::{SetupError, TransientPresentationError};
use vstd::prelude::*;

verus! {

/// Ownership state of one presentable image in the ring.
#[derive(Clone, Copy, PartialEq, Eq, Structural, Debug)]
pub enum ImageSlot {
    /// Neither the scheduler nor the display holds the image.
    Free,
    /// The scheduler holds the image for writing.
    Acquired,
    /// The display engine holds the image.
    Presenting,
}

/// Pixel dimensions of the surface the chain presents to.
#[derive(Clone, Copy, PartialEq, Eq, Structural, Debug)]
pub struct Extent {
    pub width: u32,
    pub height: u32,
}

/// Handed out by a successful acquire; the present call for the same image
/// must carry it back, which models ordering the submitted work after the
/// image's readiness and the present after that work.
#[derive(Clone, Copy, PartialEq, Eq, Structural, Debug)]
pub struct ReadySignal {
    pub chain_generation: u64,
    pub image_index: usize,
}

/// The ring of presentable images tied to one surface.
pub struct Chain {
    /// Ownership state of each image, by index.
    pub images: Vec<ImageSlot>,
    /// Current surface geometry the chain was built for.
    pub extent: Extent,
    /// Set when the surface no longer matches the chain; every operation
    /// but a rebuild then reports `OutOfDate`.
    pub stale: bool,
    /// How many times this chain has been rebuilt; counts the chain
    /// objects that have existed for the surface.
    pub generation: u64,
}

impl Chain {
    /// Number of images in the ring.
    pub open spec fn image_count(self) -> nat {
        self.images@.len()
    }

    /// The image at `i` is held by the scheduler for writing.
    pub open spec fn acquired_at(self, i: int) -> bool {
        0 <= i < self.images@.len() && self.images@[i] is Acquired
    }

    /// The image at `i` is held by neither the scheduler nor the display.
    pub open spec fn free_at(self, i: int) -> bool {
        0 <= i < self.images@.len() && self.images@[i] is Free
    }

    /// Some image is currently acquired.
    pub open spec fn has_acquired(self) -> bool {
        exists|i: int| self.acquired_at(i)
    }

    /// Some image is currently free.
    pub open spec fn has_free(self) -> bool {
        exists|i: int| self.free_at(i)
    }

    /// No image at all is held by anyone.
    pub open spec fn all_free(self) -> bool {
        forall|i: int| 0 <= i < self.images@.len() ==> self.images@[i] is Free
    }

    /// The chain's invariant: the ring is never empty, and the scheduler
    /// writes to at most one image at a time.  Every operation preserves
    /// it.
    pub open spec fn wf(self) -> bool {
        &&& self.image_count() >= 1
        &&& forall|i: int, j: int|
            #[trigger] self.acquired_at(i) && #[trigger] self.acquired_at(j) ==> i == j
    }

    /// An acquire is owed success exactly here: the chain matches the
    /// surface, the scheduler holds no image yet, and an image is free.
    pub open spec fn can_acquire(self) -> bool {
        &&& !self.stale
        &&& !self.has_acquired()
        &&& self.has_free()
    }

    /// What a full reconstruction leaves behind: same ring size, every
    /// image free, not stale, and one more generation.
    pub open spec fn is_rebuild_of(self, prev: Chain) -> bool {
        &&& self.image_count() == prev.image_count()
        &&& self.all_free()
        &&& !self.stale
        &&& self.generation == prev.generation + 1
    }

    /// Build a fresh chain of `image_count` images over a surface of the
    /// given geometry.  Fails exactly when the drawable area is empty.
    pub fn create(image_count: usize, extent: Extent) -> (r: Result<Chain, SetupError>)
        requires
            image_count >= 1,
        ensures
            r is Ok <==> extent.width >= 1 && extent.height >= 1,
            r matches Ok(c) ==> {
                &&& c.wf()
                &&& c.image_count() == image_count
                &&& c.all_free()
                &&& !c.stale
                &&& c.generation == 0
                &&& c.extent == extent
                &&& c.can_acquire()
            },
            r matches Err(e) ==> e is SurfaceCreation,
    {
        if extent.width == 0 || extent.height == 0 {
            return Err(SetupError::SurfaceCreation);
        }
        let images: Vec<ImageSlot> = vec![ImageSlot::Free; image_count];
        let c = Chain { images, extent, stale: false, generation: 0 };
        proof {
            assert(c.free_at(0));
            assert(forall|i: int| !(#[trigger] c.acquired_at(i)));
        }
        Ok(c)
    }

    /// Acquire the next presentable image for writing: the lowest-indexed
    /// free image.  Reports `OutOfDate` while the chain is stale, and
    /// `AcquireTimeout` while no image can be handed out — either none is
    /// free, or the scheduler still holds one (the chain serves a single
    /// frame at a time, so a second acquire before the present is refused).
    pub fn acquire(&mut self) -> (r: Result<(usize, ReadySignal), TransientPresentationError>)
        requires
            old(self).wf(),
        ensures
            final(self).wf(),
            final(self).extent == old(self).extent,
            final(self).stale == old(self).stale,
            final(self).generation == old(self).generation,
            final(self).image_count() == old(self).image_count(),
            r is Ok <==> old(self).can_acquire(),
            r matches Ok((idx, sig)) ==> {
                &&& old(self).free_at(idx as int)
                &&& forall|j: int| 0 <= j < idx ==> !old(self).free_at(j)
                &&& final(self).images@ == old(self).images@.update(
                    idx as int,
                    ImageSlot::Acquired,
                )
                &&& final(self).acquired_at(idx as int)
                &&& sig == (ReadySignal {
                    chain_generation: old(self).generation,
                    image_index: idx,
                })
            },
            r matches Err(e) ==> {
                &&& *final(self) == *old(self)
                &&& (e is OutOfDate <==> old(self).stale)
                &&& (e is AcquireTimeout <==> !old(self).stale && (old(self).has_acquired()
                    || !old(self).has_free()))
            },
    {
        if self.stale {
            return Err(TransientPresentationError::OutOfDate);
        }
        let n = self.images.len();
        let mut j: usize = 0;
        while j < n
            invariant
                *self == *old(self),
                self.wf(),
                !self.stale,
                n == self.images@.len(),
                j <= n,
                forall|k: int| 0 <= k < j ==> !(#[trigger] self.acquired_at(k)),
            decreases n - j,
        {
            if matches!(self.images[j], ImageSlot::Acquired) {
                proof {
                    assert(self.acquired_at(j as int));
                }
                return Err(TransientPresentationError::AcquireTimeout);
            }
            j = j + 1;
        }
        assert(forall|k: int| !(#[trigger] self.acquired_at(k)));
        let mut i: usize = 0;
        while i < n
            invariant
                *self == *old(self),
                self.wf(),
                !self.stale,
                n == self.images@.len(),
                i <= n,
                forall|k: int| 0 <= k < i ==> !(#[trigger] self.free_at(k)),
                forall|k: int| !(#[trigger] self.acquired_at(k)),
            decreases n - i,
        {
            if matches!(self.images[i], ImageSlot::Free) {
                proof {
                    assert(old(self).free_at(i as int));
                }
                self.images[i] = ImageSlot::Acquired;
                let sig = ReadySignal { chain_generation: self.generation, image_index: i };
                proof {
                    assert(self.images@ == old(self).images@.update(
                        i as int,
                        ImageSlot::Acquired,
                    ));
                    assert forall|a: int| #[trigger] self.acquired_at(a) implies a == i as int by {
                        if a != i as int {
                            assert(old(self).acquired_at(a));
                        }
                    }
                    assert(self.acquired_at(i as int));
                }
                return Ok((i, sig));
            }
            i = i + 1;
        }
        assert(forall|k: int| !(#[trigger] self.free_at(k)));
        Err(TransientPresentationError::AcquireTimeout)
    }

    /// Hand the acquired image to the display, ordered (through the carried
    /// signal) after the compute work that wrote it.  On success the image
    /// becomes `Presenting` and whatever the display held before returns to
    /// the free pool.  Reports `OutOfDate` exactly while the chain is
    /// stale; the caller must then rebuild and retry the frame.
    pub fn present(&mut self, image_index: usize, wait_signal: ReadySignal) -> (r: Result<
        (),
        TransientPresentationError,
    >)
        requires
            old(self).wf(),
            old(self).acquired_at(image_index as int),
            wait_signal.image_index == image_index,
            wait_signal.chain_generation == old(self).generation,
        ensures
            final(self).wf(),
            final(self).extent == old(self).extent,
            final(self).stale == old(self).stale,
            final(self).generation == old(self).generation,
            final(self).image_count() == old(self).image_count(),
            r is Ok <==> !old(self).stale,
            r is Ok ==> {
                &&& final(self).images@[image_index as int] is Presenting
                &&& forall|j: int|
                    0 <= j < old(self).images@.len() && j != image_index
                        ==> final(self).images@[j] == (if old(self).images@[j] is Presenting {
                        ImageSlot::Free
                    } else {
                        old(self).images@[j]
                    })
                &&& !final(self).has_acquired()
                &&& (final(self).has_free() <==> old(self).image_count() >= 2)
            },
            r matches Err(e) ==> *final(self) == *old(self) && e is OutOfDate,
    {
        if self.stale {
            return Err(TransientPresentationError::OutOfDate);
        }
        let n = self.images.len();
        let mut j: usize = 0;
        while j < n
            invariant
                n == self.images@.len(),
                n == old(self).images@.len(),
                j <= n,
                image_index < n,
                self.extent == old(self).extent,
                self.stale == old(self).stale,
                self.generation == old(self).generation,
                forall|k: int| j <= k < n ==> self.images@[k] == old(self).images@[k],
                forall|k: int|
                    0 <= k < j && k != image_index ==> self.images@[k] == (
                    if old(self).images@[k] is Presenting {
                        ImageSlot::Free
                    } else {
                        old(self).images@[k]
                    }),
                j > image_index ==> self.images@[image_index as int] is Presenting,
            decreases n - j,
        {
            if j == image_index {
                self.images[j] = ImageSlot::Presenting;
            } else if matches!(self.images[j], ImageSlot::Presenting) {
                self.images[j] = ImageSlot::Free;
            }
            j = j + 1;
        }
        proof {
            assert forall|a: int| !(#[trigger] self.acquired_at(a)) by {
                lemma_present_leaves_none_acquired(*old(self), *self, image_index as int, a);
            }
            if self.image_count() >= 2 {
                let w = if image_index as int == 0 {
                    1int
                } else {
                    0int
                };
                assert(!(old(self).images@[w] is Acquired)) by {
                    if old(self).images@[w] is Acquired {
                        assert(old(self).acquired_at(w));
                    }
                }
                assert(self.free_at(w));
            }
            if self.has_free() {
                let w = choose|i: int| self.free_at(i);
                assert(self.free_at(w));
                assert(w != image_index as int);
                assert(self.image_count() >= 2);
            }
        }
        Ok(())
    }

    /// Note that the presentation engine or the surface reported the chain
    /// stale.  Every later acquire or present reports `OutOfDate` until the
    /// chain is rebuilt.
    pub fn invalidate(&mut self)
        ensures
            final(self).images == old(self).images,
            final(self).extent == old(self).extent,
            final(self).generation == old(self).generation,
            final(self).stale,
    {
        self.stale = true;
    }

    /// Tear the chain down and rebuild it from the current surface
    /// geometry, reusing the ring size.  Fails exactly when the drawable
    /// area is empty; the ring is recovered in place, so the number of
    /// chain images never changes across rebuilds.
    pub fn rebuild(&mut self, extent: Extent) -> (r: Result<(), SetupError>)
        requires
            old(self).wf(),
            old(self).generation < u64::MAX,
        ensures
            final(self).wf(),
            r is Ok <==> extent.width >= 1 && extent.height >= 1,
            r is Ok ==> final(self).is_rebuild_of(*old(self)) && final(self).extent == extent
                && final(self).can_acquire(),
            r matches Err(e) ==> *final(self) == *old(self) && e is SurfaceCreation,
    {
        if extent.width == 0 || extent.height == 0 {
            return Err(SetupError::SurfaceCreation);
        }
        let n = self.images.len();
        let mut j: usize = 0;
        while j < n
            invariant
                n == self.images@.len(),
                n == old(self).images@.len(),
                j <= n,
                self.generation == old(self).generation,
                forall|k: int| 0 <= k < j ==> self.images@[k] is Free,
            decreases n - j,
        {
            self.images[j] = ImageSlot::Free;
            j = j + 1;
        }
        self.extent = extent;
        self.stale = false;
        self.generation = self.generation + 1;
        proof {
            assert(forall|i: int| !(#[trigger] self.acquired_at(i)));
            assert(self.free_at(0));
        }
        Ok(())
    }
}

/// One rebuild restores the chain to a serviceable state: same ring size,
/// nothing held, not stale, and the next acquire owed success.
pub proof fn lemma_rebuild_step(prev: Chain, cur: Chain)
    requires
        prev.wf(),
        cur.is_rebuild_of(prev),
    ensures
        cur.wf(),
        cur.can_acquire(),
        cur.image_count() == prev.image_count(),
        cur.generation == prev.generation + 1,
{
    assert(forall|i: int| !(#[trigger] cur.acquired_at(i)));
    assert(cur.free_at(0));
}

/// Recovery from staleness is idempotent: however many times the chain is
/// forced stale and rebuilt, the ring size never changes — no image leaks
/// and none is duplicated — the generation counts exactly one chain object
/// per rebuild, and the chain ends ready for a successful acquire and
/// present.
pub proof fn lemma_rebuild_cycle_recovers(first: Chain, rebuilds: Seq<Chain>)
    requires
        first.wf(),
        rebuilds.len() >= 1,
        rebuilds[0].is_rebuild_of(first),
        forall|k: int|
            1 <= k < rebuilds.len() ==> #[trigger] rebuilds[k].is_rebuild_of(rebuilds[k - 1]),
    ensures
        rebuilds.last().wf(),
        rebuilds.last().can_acquire(),
        rebuilds.last().image_count() == first.image_count(),
        rebuilds.last().generation == first.generation + rebuilds.len(),
    decreases rebuilds.len(),
{
    if rebuilds.len() == 1 {
        lemma_rebuild_step(first, rebuilds[0]);
    } else {
        let shorter = rebuilds.drop_last();
        assert(shorter[0] == rebuilds[0]);
        assert(forall|k: int|
            1 <= k < shorter.len() ==> #[trigger] shorter[k].is_rebuild_of(shorter[k - 1]));
        lemma_rebuild_cycle_recovers(first, shorter);
        assert(rebuilds.last().is_rebuild_of(rebuilds[rebuilds.len() - 2]));
        lemma_rebuild_step(rebuilds[rebuilds.len() - 2], rebuilds.last());
    }
}

/// The single-writer rule: the chain never has two images owned for
/// writing at once.
pub proof fn lemma_single_writer(c: Chain, i: int, j: int)
    requires
        c.wf(),
        c.acquired_at(i),
        c.acquired_at(j),
    ensures
        i == j,
{
}

/// A second acquire while an image is still held is never owed success;
/// `acquire` refuses it instead of handing out a second image.
pub proof fn lemma_no_double_acquire(c: Chain)
    requires
        c.has_acquired(),
    ensures
        !c.can_acquire(),
{
}

/// After a present pass nothing is acquired any more: the presented image
/// turned `Presenting` and every other slot kept or lost a non-`Acquired`
/// state.
proof fn lemma_present_leaves_none_acquired(prev: Chain, cur: Chain, idx: int, a: int)
    requires
        prev.wf(),
        prev.acquired_at(idx),
        cur.images@.len() == prev.images@.len(),
        cur.images@[idx] is Presenting,
        forall|j: int|
            0 <= j < prev.images@.len() && j != idx ==> cur.images@[j] == (
            if prev.images@[j] is Presenting {
                ImageSlot::Free
            } else {
                prev.images@[j]
            }),
    ensures
        !cur.acquired_at(a),
{
    if cur.acquired_at(a) {
        assert(a != idx);
        assert(prev.acquired_at(a));
        assert(a == idx);
    }
}

} // verus!
