//! Trusted boundary around etagere's shelf-packing allocator.
//!
//! The packing structure itself lives in the `etagere` crate; this module
//! declares the type to the verifier, names its contents, and wraps the
//! calls the allocator logic makes. Nothing here ever deallocates, so every
//! allocation handed out stays live and its rectangle stays fixed for the
//! lifetime of the allocator value.

use vstd::prelude::*;

use etagere::AtlasAllocator;

use crate::geom::{Rect, MAX_ATLAS_SIDE, MAX_LIVE_ALLOCATIONS};

verus! {

#[verifier::external_type_specification]
#[verifier::external_body]
pub struct ExAtlasAllocator(AtlasAllocator);

/// The live allocations of a shelf allocator: each allocation's serialized
/// id mapped to its rectangle.
pub uninterp spec fn shelf_allocs(a: AtlasAllocator) -> Map<u32, Rect>;

/// The contents of a freshly created shelf allocator: no allocations.
pub open spec fn empty_allocs() -> Map<u32, Rect> {
    Map::empty()
}

/// The side length the shelf allocator was created with.
pub uninterp spec fn shelf_side(a: AtlasAllocator) -> int;

/// Whether a rectangle of the given size finds a free spot in the
/// allocator's current state. `allocate`'s outcome is a function of the
/// allocator value and the requested size alone, so the decision can be
/// named; only an actual call can establish what it is.
pub uninterp spec fn shelf_fits(a: AtlasAllocator, width: u32, height: u32) -> bool;

/// Relies on `etagere::AtlasAllocator::new`: creates an empty allocator of
/// the given size (its initialization asserts a positive size no larger
/// than `u16::MAX` whose area fits an `i32`, which the bound on `side`
/// guarantees).
#[verifier::external_body]
pub(crate) fn shelf_new(side: u32) -> (alloc: AtlasAllocator)
    requires
        1 <= side <= MAX_ATLAS_SIDE,
    ensures
        shelf_side(alloc) == side,
        shelf_allocs(alloc) == empty_allocs(),
{
    etagere::AtlasAllocator::new(etagere::size2(side as i32, side as i32))
}

/// Relies on `etagere::AtlasAllocator::allocate`: on success it marks one
/// free span of one shelf as allocated and returns that span, a rectangle
/// at least as large as requested, inside the atlas, sharing no pixel with
/// any live allocation, under an id distinct from every live allocation's
/// (the id embeds the span's index, and each span holds at most one live
/// allocation); on failure it changes nothing. It never unmarks a span, so
/// the rectangles of live allocations are unaffected either way. Whether a
/// spot is found depends only on the allocator state and the requested
/// size. The allocator indexes spans with `u16` values and one call can
/// add up to two spans beyond the allocated one, so the count of live
/// allocations must stay bounded for the indices to stay clear of the
/// sentinel; the bound in the precondition leaves ample room.
#[verifier::external_body]
pub(crate) fn shelf_allocate(a: &mut AtlasAllocator, width: u32, height: u32) -> (result:
    Option<(u32, Rect)>)
    requires
        1 <= width <= MAX_ATLAS_SIDE,
        1 <= height <= MAX_ATLAS_SIDE,
        shelf_allocs(*old(a)).len() < MAX_LIVE_ALLOCATIONS,
    ensures
        shelf_side(*final(a)) == shelf_side(*old(a)),
        (result is Some) <==> shelf_fits(*old(a), width, height),
        match result {
            Some(id_rect) => {
                &&& !shelf_allocs(*old(a)).contains_key(id_rect.0)
                &&& shelf_allocs(*final(a)) == shelf_allocs(*old(a)).insert(id_rect.0, id_rect.1)
                &&& id_rect.1.w >= width
                &&& id_rect.1.h >= height
                &&& id_rect.1.within_side(shelf_side(*old(a)))
                &&& forall|other: u32|
                    shelf_allocs(*old(a)).contains_key(other) ==> id_rect.1.disjoint(
                        #[trigger] shelf_allocs(*old(a))[other],
                    )
            },
            None => shelf_allocs(*final(a)) == shelf_allocs(*old(a)),
        },
{
    match a.allocate(etagere::size2(width as i32, height as i32)) {
        Some(allocation) => {
            let rect = Rect {
                x: allocation.rectangle.min.x as u32,
                y: allocation.rectangle.min.y as u32,
                w: allocation.rectangle.width() as u32,
                h: allocation.rectangle.height() as u32,
            };
            Some((allocation.id.serialize(), rect))
        },
        None => None,
    }
}

/// Relies on `etagere::AtlasAllocator::get`: for a live allocation's id it
/// returns that allocation's rectangle (nothing in this module deallocates,
/// so every id in the contents map is live and its span and shelf are
/// untouched by later allocations).
#[verifier::external_body]
pub(crate) fn shelf_get(a: &AtlasAllocator, id: u32) -> (result: Rect)
    requires
        shelf_allocs(*a).contains_key(id),
    ensures
        result == shelf_allocs(*a)[id],
{
    let rect = a.get(etagere::AllocId::deserialize(id));
    Rect {
        x: rect.min.x as u32,
        y: rect.min.y as u32,
        w: rect.width() as u32,
        h: rect.height() as u32,
    }
}

/// Relies on `etagere::AtlasAllocator::size`: returns the size the
/// allocator was created with, which never changes.
#[verifier::external_body]
pub(crate) fn shelf_size(a: &AtlasAllocator) -> (side: u32)
    ensures
        side == shelf_side(*a),
{
    a.size().width as u32
}

} // verus!
