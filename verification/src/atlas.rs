//! The atlas allocator: decides the atlas side length and assigns each
//! surface a rectangle inside one square atlas texture.
//!
//! Sizing policy: sum the declared areas of all surfaces; the atlas side is
//! the smallest power of two whose square is at least twice that total
//! (equivalently: round the square root of the total up to the next power
//! of two, then double it once more if that leaves less than half the atlas
//! free). The factor of two keeps at least 50% of the atlas as working room
//! to reduce pathological repacking.

use vstd::prelude::*;

use std::collections::HashMap;

use etagere::AtlasAllocator;

use vstd::arithmetic::power2::{lemma2_to64, lemma_pow2_adds, lemma_pow2_strictly_increases, pow2};

use crate::geom::{
    area_ok, covers, distinct_entities, lemma_total_area_nonneg, lemma_total_area_permutation,
    lemma_total_area_split, lemma_total_area_take_step, no_allocations, preserved, sized_for,
    total_area, valid_sizes, Rect, SurfaceSize, MAX_ATLAS_SIDE, MAX_LIVE_ALLOCATIONS,
};
use crate::shelf::{
    shelf_allocate, shelf_allocs, shelf_fits, shelf_get, shelf_new, shelf_side, shelf_size,
};

verus! {

broadcast use vstd::std_specs::hash::group_hash_axioms;

/// `n` is a power of two.
pub open spec fn is_pow2(n: int) -> bool {
    exists|k: nat| n == pow2(k)
}

/// The sizing recursion: starting from the power of two `p`, keep doubling
/// until the square is at least twice the total area (the side cap only
/// guards termination; under `area_ok` it is never the reason to stop).
pub open spec fn grow_pow2(p: int, area: int) -> int
    decreases 2 * (MAX_ATLAS_SIDE as int) - p when 1 <= p
{
    if p * p >= 2 * area || p >= MAX_ATLAS_SIDE {
        p
    } else {
        grow_pow2(2 * p, area)
    }
}

/// The atlas side required for a surface set of the given total area: the
/// smallest power of two whose square is at least twice the total area.
pub open spec fn required_size_spec(area: int) -> int {
    grow_pow2(1, area)
}

/// Doubling a power of two below the cap stays a power of two within the cap.
proof fn lemma_pow2_double(p: int)
    requires
        is_pow2(p),
        1 <= p < MAX_ATLAS_SIDE,
    ensures
        is_pow2(2 * p),
        2 * p <= MAX_ATLAS_SIDE,
{
    let k = choose|k: nat| p == pow2(k);
    lemma2_to64();
    lemma_pow2_adds(1, k);
    assert(2 * p == pow2((k + 1) as nat));
    if k + 1 > 15 {
        if k > 15 {
            lemma_pow2_strictly_increases(15, k);
        }
        assert(false);
    }
    if k + 1 < 15 {
        lemma_pow2_strictly_increases(k + 1, 15);
    }
}

/// The sizing recursion is minimal: unless it stops where it starts, the
/// next smaller power of two would not cover twice the area.
proof fn lemma_grow_pow2_minimal(p: int, area: int)
    requires
        is_pow2(p),
        1 <= p <= MAX_ATLAS_SIDE,
        0 <= area,
        2 * area <= (MAX_ATLAS_SIDE as int) * (MAX_ATLAS_SIDE as int),
    ensures
        grow_pow2(p, area) == p || (grow_pow2(p, area) / 2) * (grow_pow2(p, area) / 2) < 2 * area,
    decreases 2 * (MAX_ATLAS_SIDE as int) - p,
{
    if p * p >= 2 * area || p >= MAX_ATLAS_SIDE {
    } else {
        lemma_pow2_double(p);
        lemma_grow_pow2_minimal(2 * p, area);
    }
}

/// `required_size` is order-independent: two listings of the same surface
/// set (any permutation of each other) require the same atlas size.
pub proof fn lemma_required_size_order_independent(s1: Seq<SurfaceSize>, s2: Seq<SurfaceSize>)
    requires
        s1.to_multiset() == s2.to_multiset(),
    ensures
        required_size_spec(total_area(s1)) == required_size_spec(total_area(s2)),
{
    lemma_total_area_permutation(s1, s2);
}

/// After a complete `allocate_all`, every surface of the set holds an
/// allocation, and no two distinct surfaces' rectangles overlap.
pub proof fn lemma_all_allocated_disjoint(atlas: &VelloAtlas, s: Seq<SurfaceSize>, i: int, j: int)
    requires
        atlas.wf(),
        covers(atlas.allocs(), s),
        0 <= i < s.len(),
        0 <= j < s.len(),
        s[i].entity != s[j].entity,
    ensures
        atlas.allocs().contains_key(s[i].entity),
        atlas.allocs().contains_key(s[j].entity),
        atlas.allocs()[s[i].entity].disjoint(atlas.allocs()[s[j].entity]),
{
    atlas.lemma_allocations_disjoint(s[i].entity, s[j].entity);
}

/// The square of a side within the cap fits comfortably in 32 bits.
proof fn lemma_square_bounded(x: int)
    requires
        0 <= x <= MAX_ATLAS_SIDE,
    ensures
        0 <= x * x <= 0x4000_0000,
{
    assert(x * x <= 0x4000_0000) by (nonlinear_arith)
        requires
            0 <= x <= 32768,
    ;
}

/// The hysteresis band of `update_size`: the packing is kept while the
/// required area stays within `[side * side / 4, side * side]` of the
/// current atlas, so single-pixel churn in the surface set cannot make the
/// atlas thrash between sizes.
pub open spec fn in_hysteresis_band(req: int, side: int) -> bool {
    side * side / 4 <= req * req <= side * side
}

/// Surfaces allocated during the current call hold rectangles of exactly
/// their declared size. Only allocations carried over from before the call
/// (possible only while the atlas keeps its size) may be stale after a
/// resize of their surface.
pub open spec fn freshly_allocated_sized(
    pre: VelloAtlas,
    cur: VelloAtlas,
    s: Seq<SurfaceSize>,
) -> bool {
    forall|i: int|
        0 <= i < s.len() && cur.allocs().contains_key(#[trigger] s[i].entity) && !(cur.side()
            == pre.side() && pre.allocs().contains_key(s[i].entity)) ==> sized_for(
            cur.allocs()[s[i].entity],
            s[i],
        )
}

/// Evidence of genuine exhaustion: on some packing state with the largest
/// atlas side, one of the set's surfaces found no free spot. Nothing but an
/// actual failed placement at the cap can establish this, so a result that
/// claims exhaustion owes one.
pub open spec fn unplaceable_at_cap(s: Seq<SurfaceSize>) -> bool {
    exists|a: AtlasAllocator, i: int|
        0 <= i < s.len() && shelf_side(a) == MAX_ATLAS_SIDE && !(#[trigger] shelf_fits(
            a,
            s[i].width,
            s[i].height,
        ))
}

/// What the atlas records for one allocated surface: the packer's span id
/// and the surface's declared size at allocation time.
#[derive(Clone, Copy)]
struct AllocRecord {
    id: u32,
    width: u32,
    height: u32,
}

/// Assigns each surface of a changing set a rectangle inside one square
/// atlas texture, growing the atlas when allocation fails and rebuilding it
/// when the required size leaves the hysteresis band.
pub struct VelloAtlas {
    atlas_alloc: AtlasAllocator,
    alloc_ids: HashMap<u64, AllocRecord>,
}

impl VelloAtlas {
    /// The atlas side length, in pixels.
    pub closed spec fn side(&self) -> int {
        shelf_side(self.atlas_alloc)
    }

    /// The allocations: each allocated surface's identity mapped to its
    /// rectangle inside the atlas. The rectangle's origin is its span's
    /// corner in the packing; its size is exactly the size the surface
    /// declared when it was allocated (the packer may reserve a larger
    /// span, which stays unusable padding).
    pub closed spec fn allocs(&self) -> Map<u64, Rect> {
        self.alloc_ids@.map_values(
            |r: AllocRecord|
                Rect {
                    x: shelf_allocs(self.atlas_alloc)[r.id].x,
                    y: shelf_allocs(self.atlas_alloc)[r.id].y,
                    w: r.width,
                    h: r.height,
                },
        )
    }

    /// Well-formedness: the side is a power of two within the cap; every
    /// record refers to a live span at least as large as the declared size
    /// it carries, distinct surfaces hold distinct spans, the count of live
    /// spans (which equals the count of allocated surfaces, since nothing
    /// deallocates) stays within the packer's index range, and live spans
    /// lie inside the atlas and are pairwise disjoint.
    pub closed spec fn wf(&self) -> bool {
        &&& is_pow2(self.side())
        &&& 1 <= self.side() <= MAX_ATLAS_SIDE
        &&& self.alloc_ids@.dom().finite()
        &&& shelf_allocs(self.atlas_alloc).dom().finite()
        &&& shelf_allocs(self.atlas_alloc).len() == self.alloc_ids@.len()
        &&& self.alloc_ids@.len() <= MAX_LIVE_ALLOCATIONS
        &&& forall|e: u64|
            self.alloc_ids@.contains_key(e) ==> shelf_allocs(self.atlas_alloc).contains_key(
                (#[trigger] self.alloc_ids@[e]).id,
            )
        &&& forall|e: u64|
            #[trigger] self.alloc_ids@.contains_key(e) ==> self.alloc_ids@[e].width
                <= shelf_allocs(self.atlas_alloc)[self.alloc_ids@[e].id].w && self.alloc_ids@[e].height
                <= shelf_allocs(self.atlas_alloc)[self.alloc_ids@[e].id].h
        &&& forall|e1: u64, e2: u64|
            #[trigger] self.alloc_ids@.contains_key(e1) && #[trigger] self.alloc_ids@.contains_key(
                e2,
            ) && e1 != e2 ==> self.alloc_ids@[e1].id != self.alloc_ids@[e2].id
        &&& forall|id: u32|
            shelf_allocs(self.atlas_alloc).contains_key(id) ==> (#[trigger] shelf_allocs(
                self.atlas_alloc,
            )[id]).within_side(self.side())
        &&& forall|id1: u32, id2: u32|
            #[trigger] shelf_allocs(self.atlas_alloc).contains_key(id1) && #[trigger] shelf_allocs(
                self.atlas_alloc,
            ).contains_key(id2) && id1 != id2 ==> shelf_allocs(self.atlas_alloc)[id1].disjoint(
                shelf_allocs(self.atlas_alloc)[id2],
            )
    }

    /// A well-formed atlas has a power-of-two side length within the cap.
    pub proof fn lemma_side_pow2(&self)
        requires
            self.wf(),
        ensures
            is_pow2(self.side()),
            1 <= self.side() <= MAX_ATLAS_SIDE,
    {
    }

    /// Every allocation lies inside the atlas.
    pub proof fn lemma_allocation_within(&self, entity: u64)
        requires
            self.wf(),
            self.allocs().contains_key(entity),
        ensures
            self.allocs()[entity].within_side(self.side()),
    {
        assert(self.alloc_ids@.contains_key(entity));
        let record = self.alloc_ids@[entity];
        assert(shelf_allocs(self.atlas_alloc)[record.id].within_side(self.side()));
    }

    /// No two live surfaces' allocated rectangles overlap: each rectangle
    /// shares its span's corner and is no larger than the span, and spans
    /// never overlap.
    pub proof fn lemma_allocations_disjoint(&self, e1: u64, e2: u64)
        requires
            self.wf(),
            self.allocs().contains_key(e1),
            self.allocs().contains_key(e2),
            e1 != e2,
        ensures
            self.allocs()[e1].disjoint(self.allocs()[e2]),
    {
        assert(self.alloc_ids@.contains_key(e1));
        assert(self.alloc_ids@.contains_key(e2));
        let r1 = self.alloc_ids@[e1];
        let r2 = self.alloc_ids@[e2];
        assert(shelf_allocs(self.atlas_alloc)[r1.id].disjoint(
            shelf_allocs(self.atlas_alloc)[r2.id],
        ));
    }

    /// Compute the atlas side the current surface set requires: the
    /// smallest power of two whose square is at least twice the summed
    /// area. A pure function of the surface set, independent of its order.
    pub fn required_size(sizes: &Vec<SurfaceSize>) -> (size: u32)
        requires
            area_ok(sizes@),
        ensures
            size as int == required_size_spec(total_area(sizes@)),
            is_pow2(size as int),
            1 <= size <= MAX_ATLAS_SIDE,
            size * size >= 2 * total_area(sizes@),
            size == 1 || ((size as int) / 2) * ((size as int) / 2) < 2 * total_area(sizes@),
    {
        proof {
            lemma_total_area_nonneg(sizes@);
        }
        let mut total: u64 = 0;
        let mut i: usize = 0;
        while i < sizes.len()
            invariant
                0 <= i <= sizes@.len(),
                total == total_area(sizes@.take(i as int)),
                total_area(sizes@.take(i as int)) <= total_area(sizes@),
                area_ok(sizes@),
            decreases sizes@.len() - i,
        {
            let s = sizes[i];
            proof {
                lemma_total_area_take_step(sizes@, i as int);
                lemma_total_area_split(sizes@, i as int + 1);
                lemma_total_area_nonneg(sizes@.skip(i as int + 1));
            }
            total = total + (s.width as u64) * (s.height as u64);
            i = i + 1;
        }
        proof {
            assert(sizes@.take(sizes@.len() as int) =~= sizes@);
        }
        let mut p: u32 = 1;
        proof {
            lemma2_to64();
            assert(is_pow2(1)) by {
                assert(1int == pow2(0));
            }
        }
        while (p as u64) * (p as u64) < 2 * total
            invariant
                is_pow2(p as int),
                1 <= p <= MAX_ATLAS_SIDE,
                total == total_area(sizes@),
                area_ok(sizes@),
                (p as int) * (p as int) <= (MAX_ATLAS_SIDE as int) * (MAX_ATLAS_SIDE as int),
                grow_pow2(p as int, total as int) == grow_pow2(1, total as int),
            decreases MAX_ATLAS_SIDE - p,
        {
            proof {
                assert(p < MAX_ATLAS_SIDE) by (nonlinear_arith)
                    requires
                        (p as int) * (p as int) < 2 * (total as int),
                        2 * (total as int) <= (MAX_ATLAS_SIDE as int) * (MAX_ATLAS_SIDE as int),
                        p >= 1,
                ;
                lemma_pow2_double(p as int);
                assert((2 * (p as int)) * (2 * (p as int)) <= (MAX_ATLAS_SIDE as int) * (
                MAX_ATLAS_SIDE as int)) by (nonlinear_arith)
                    requires
                        1 <= p,
                        2 * (p as int) <= (MAX_ATLAS_SIDE as int),
                ;
            }
            p = p * 2;
        }
        proof {
            lemma_grow_pow2_minimal(1, total as int);
        }
        p
    }

    /// Create an atlas sized for the given surface set, with nothing
    /// allocated yet.
    pub fn new(sizes: &Vec<SurfaceSize>) -> (atlas: Self)
        requires
            area_ok(sizes@),
        ensures
            atlas.wf(),
            atlas.side() == required_size_spec(total_area(sizes@)),
            atlas.allocs() == no_allocations(),
    {
        let size = Self::required_size(sizes);
        let atlas = VelloAtlas { atlas_alloc: shelf_new(size), alloc_ids: HashMap::new() };
        proof {
            assert(atlas.allocs() =~= no_allocations());
        }
        atlas
    }

    /// The atlas texture's width in pixels.
    pub fn width(&self) -> (w: u32)
        ensures
            w == self.side(),
    {
        shelf_size(&self.atlas_alloc)
    }

    /// The atlas texture's height in pixels (the atlas is square).
    pub fn height(&self) -> (h: u32)
        ensures
            h == self.side(),
    {
        shelf_size(&self.atlas_alloc)
    }

    /// Whether the surface currently holds an allocation.
    pub fn is_allocated(&self, entity: u64) -> (present: bool)
        ensures
            present == self.allocs().contains_key(entity),
    {
        let present = self.alloc_ids.contains_key(&entity);
        proof {
            assert(self.allocs().contains_key(entity) == self.alloc_ids@.contains_key(entity));
        }
        present
    }

    /// The rectangle allocated to a live surface: its span's corner in the
    /// atlas, sized exactly as the surface declared when it was allocated.
    /// Calling this for a surface without an allocation is an invariant
    /// violation, ruled out by the precondition.
    pub fn get(&self, entity: u64) -> (rect: Rect)
        requires
            self.wf(),
            self.allocs().contains_key(entity),
        ensures
            rect == self.allocs()[entity],
    {
        proof {
            assert(self.allocs().contains_key(entity) == self.alloc_ids@.contains_key(entity));
        }
        let record = *self.alloc_ids.get(&entity).unwrap();
        let span = shelf_get(&self.atlas_alloc, record.id);
        Rect { x: span.x, y: span.y, w: record.width, h: record.height }
    }

    /// Discard the packing structure and rebuild it empty at the given
    /// size. Clears every existing allocation.
    fn resize(&mut self, size: u32)
        requires
            1 <= size <= MAX_ATLAS_SIDE,
            is_pow2(size as int),
        ensures
            final(self).wf(),
            final(self).side() == size,
            final(self).allocs() == no_allocations(),
            final(self).alloc_ids@.len() == 0,
    {
        self.alloc_ids.clear();
        self.atlas_alloc = shelf_new(size);
        proof {
            assert(self.allocs() =~= no_allocations());
        }
    }

    /// Recompute the required size; if the requirement has left the
    /// hysteresis band around the current atlas area, rebuild the packing
    /// structure at the new size, clearing all allocations; otherwise leave
    /// the atlas untouched.
    pub fn update_size(&mut self, sizes: &Vec<SurfaceSize>)
        requires
            old(self).wf(),
            area_ok(sizes@),
        ensures
            final(self).wf(),
            in_hysteresis_band(
                required_size_spec(total_area(sizes@)),
                old(self).side(),
            ) ==> *final(self) == *old(self),
            !in_hysteresis_band(required_size_spec(total_area(sizes@)), old(self).side()) ==> {
                &&& final(self).side() == required_size_spec(total_area(sizes@))
                &&& final(self).allocs() == no_allocations()
            },
    {
        let required = Self::required_size(sizes);
        let side = shelf_size(&self.atlas_alloc);
        proof {
            lemma_square_bounded(side as int);
            lemma_square_bounded(required as int);
        }
        let current_area = side * side;
        let required_area = required * required;
        if required_area < current_area / 4 || required_area > current_area {
            self.resize(required);
        }
    }

    /// Ensure every surface of the set has an allocation: each surface not
    /// yet allocated is placed into the current packing; when placement
    /// fails, the atlas side doubles, all allocations are cleared, and the
    /// whole set is retried from scratch. (When stale allocations of
    /// long-removed surfaces would push the packer past its span-count
    /// limit, the packing is first rebuilt at the same side.) Returns
    /// whether every surface ended up allocated; exhaustion is reported
    /// only with evidence: a placement actually failed at the largest
    /// atlas side.
    pub fn allocate_all(&mut self, sizes: &Vec<SurfaceSize>) -> (complete: bool)
        requires
            old(self).wf(),
            valid_sizes(sizes@),
            distinct_entities(sizes@),
            sizes@.len() <= MAX_LIVE_ALLOCATIONS,
        ensures
            final(self).wf(),
            final(self).side() >= old(self).side(),
            complete ==> covers(final(self).allocs(), sizes@),
            final(self).side() == old(self).side() && old(self).allocs().len() + sizes@.len()
                <= MAX_LIVE_ALLOCATIONS ==> preserved(old(self).allocs(), final(self).allocs()),
            freshly_allocated_sized(*old(self), *final(self), sizes@),
            !complete ==> final(self).side() == MAX_ATLAS_SIDE && unplaceable_at_cap(sizes@),
    {
        proof {
            assert(self.allocs().dom() =~= self.alloc_ids@.dom());
        }
        if self.alloc_ids.len() > MAX_LIVE_ALLOCATIONS - sizes.len() {
            // Stale allocations of removed surfaces have accumulated close
            // to the packer's span-count limit: rebuild at the same side
            // and place the current set from scratch.
            let side = self.width();
            self.resize(side);
        }
        let ghost mut witness_state: AtlasAllocator = self.atlas_alloc;
        let ghost mut witness_index: int = 0;
        loop
            invariant
                self.wf(),
                valid_sizes(sizes@),
                distinct_entities(sizes@),
                sizes@.len() <= MAX_LIVE_ALLOCATIONS,
                self.alloc_ids@.len() + sizes@.len() <= MAX_LIVE_ALLOCATIONS,
                self.side() >= old(self).side(),
                self.side() == old(self).side() && old(self).allocs().len() + sizes@.len()
                    <= MAX_LIVE_ALLOCATIONS ==> preserved(old(self).allocs(), self.allocs()),
                freshly_allocated_sized(*old(self), *self, sizes@),
            decreases MAX_ATLAS_SIDE as int - self.side(),
        {
            let ghost round_start: VelloAtlas = *self;
            let ghost head_len: int = self.alloc_ids@.len() as int;
            let mut i: usize = 0;
            let mut failed = false;
            while i < sizes.len() && !failed
                invariant
                    0 <= i <= sizes@.len(),
                    self.wf(),
                    valid_sizes(sizes@),
                    distinct_entities(sizes@),
                    self.side() == round_start.side(),
                    round_start.side() >= old(self).side(),
                    head_len + sizes@.len() <= MAX_LIVE_ALLOCATIONS,
                    self.alloc_ids@.len() <= head_len + i,
                    self.side() == old(self).side() && old(self).allocs().len() + sizes@.len()
                        <= MAX_LIVE_ALLOCATIONS ==> preserved(old(self).allocs(), self.allocs()),
                    freshly_allocated_sized(*old(self), *self, sizes@),
                    !failed ==> forall|j: int|
                        0 <= j < i ==> self.allocs().contains_key(#[trigger] sizes@[j].entity),
                    failed ==> {
                        &&& 0 <= witness_index < sizes@.len()
                        &&& shelf_side(witness_state) == self.side()
                        &&& !shelf_fits(
                            witness_state,
                            sizes@[witness_index].width,
                            sizes@[witness_index].height,
                        )
                    },
                decreases sizes@.len() - i,
            {
                let s = sizes[i];
                if !self.alloc_ids.contains_key(&s.entity) {
                    let ghost before: VelloAtlas = *self;
                    let placed = shelf_allocate(&mut self.atlas_alloc, s.width, s.height);
                    match placed {
                        Some(id_rect) => {
                            self.alloc_ids.insert(
                                s.entity,
                                AllocRecord { id: id_rect.0, width: s.width, height: s.height },
                            );
                            proof {
                                let id = id_rect.0;
                                let span = id_rect.1;
                                let a0 = shelf_allocs(before.atlas_alloc);
                                let a1 = shelf_allocs(self.atlas_alloc);
                                assert forall|e: u64|
                                    self.alloc_ids@.contains_key(e) implies a1.contains_key(
                                    (#[trigger] self.alloc_ids@[e]).id,
                                ) by {
                                    if e != s.entity {
                                        assert(before.alloc_ids@.contains_key(e));
                                    }
                                }
                                assert forall|e1: u64, e2: u64|
                                    self.alloc_ids@.contains_key(e1)
                                        && self.alloc_ids@.contains_key(e2) && e1
                                        != e2 implies self.alloc_ids@[e1].id
                                    != self.alloc_ids@[e2].id by {
                                    if e1 == s.entity {
                                        assert(before.alloc_ids@.contains_key(e2));
                                        assert(a0.contains_key(before.alloc_ids@[e2].id));
                                    } else if e2 == s.entity {
                                        assert(before.alloc_ids@.contains_key(e1));
                                        assert(a0.contains_key(before.alloc_ids@[e1].id));
                                    } else {
                                        assert(before.alloc_ids@.contains_key(e1));
                                        assert(before.alloc_ids@.contains_key(e2));
                                    }
                                }
                                assert(self.alloc_ids@.dom() =~= before.alloc_ids@.dom().insert(
                                    s.entity,
                                ));
                                assert(a1.dom() =~= a0.dom().insert(id));
                                assert(self.wf());
                                assert forall|e: u64|
                                    before.allocs().contains_key(e) implies before.alloc_ids@[e].id
                                    != id by {
                                    assert(before.alloc_ids@.contains_key(e));
                                    assert(a0.contains_key(before.alloc_ids@[e].id));
                                }
                                assert(self.allocs() =~= before.allocs().insert(
                                    s.entity,
                                    Rect { x: span.x, y: span.y, w: s.width, h: s.height },
                                ));
                            }
                        },
                        None => {
                            failed = true;
                            proof {
                                witness_state = before.atlas_alloc;
                                witness_index = i as int;
                            }
                        },
                    }
                }
                i = i + 1;
            }
            if !failed {
                return true;
            }
            let side = self.width();
            if side >= MAX_ATLAS_SIDE {
                proof {
                    assert(!shelf_fits(
                        witness_state,
                        sizes@[witness_index].width,
                        sizes@[witness_index].height,
                    ));
                    assert(unplaceable_at_cap(sizes@));
                }
                return false;
            }
            proof {
                lemma_pow2_double(self.side());
            }
            self.resize(side * 2);
        }
    }
}

} // verus!
