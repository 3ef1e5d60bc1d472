//! Rectangles, surface descriptions, and the area arithmetic that the
//! allocator's sizing policy is stated over.

use vstd::prelude::*;

verus! {

/// Largest side length the atlas texture may reach. Growing past this bound
/// would overflow the 32-bit pixel arithmetic used throughout (and exceed
/// what GPU devices allocate), so allocation reports failure instead.
pub const MAX_ATLAS_SIDE: u32 = 32768;

/// Largest number of live allocations one packing structure may hold. The
/// shelf packer indexes its spans with 16-bit indices and each allocation
/// can split off up to two further spans, so the count of live allocations
/// must stay well below that range; the working sets this subsystem serves
/// are dozens to hundreds of surfaces.
pub const MAX_LIVE_ALLOCATIONS: usize = 16384;

/// An axis-aligned rectangle inside the atlas, in pixels. `x`, `y` is the
/// top-left corner; the vertical axis grows downward.
#[derive(Clone, Copy, Debug, PartialEq, Eq, Structural)]
pub struct Rect {
    pub x: u32,
    pub y: u32,
    pub w: u32,
    pub h: u32,
}

impl Rect {
    /// The rectangle lies inside the square of the given side length.
    pub open spec fn within_side(self, side: int) -> bool {
        self.x + self.w <= side && self.y + self.h <= side
    }

    /// The two rectangles share no pixel.
    pub open spec fn disjoint(self, other: Rect) -> bool {
        ||| self.x + self.w <= other.x
        ||| other.x + other.w <= self.x
        ||| self.y + self.h <= other.y
        ||| other.y + other.h <= self.y
    }
}

/// One live surface: its identity (an opaque handle unique per surface) and
/// its declared pixel size, taken from the surface's destination texture.
#[derive(Clone, Copy, Debug, PartialEq, Eq, Structural)]
pub struct SurfaceSize {
    pub entity: u64,
    pub width: u32,
    pub height: u32,
}

/// Sum of the declared areas of all surfaces in the set.
pub open spec fn total_area(s: Seq<SurfaceSize>) -> int
    decreases s.len(),
{
    if s.len() == 0 {
        0
    } else {
        total_area(s.drop_last()) + s.last().width * s.last().height
    }
}

/// The surface set is small enough that the sizing formula stays within the
/// atlas side cap: twice the total area must not exceed the largest atlas.
pub open spec fn area_ok(s: Seq<SurfaceSize>) -> bool {
    2 * total_area(s) <= (MAX_ATLAS_SIDE as int) * (MAX_ATLAS_SIDE as int)
}

/// Every surface has a positive size no larger than the atlas cap.
pub open spec fn valid_sizes(s: Seq<SurfaceSize>) -> bool {
    forall|i: int|
        0 <= i < s.len() ==> {
            &&& 1 <= #[trigger] s[i].width <= MAX_ATLAS_SIDE
            &&& 1 <= s[i].height <= MAX_ATLAS_SIDE
        }
}

/// No two surfaces in the set share an identity.
pub open spec fn distinct_entities(s: Seq<SurfaceSize>) -> bool {
    forall|i: int, j: int| 0 <= i < j < s.len() ==> s[i].entity != s[j].entity
}

/// Every surface of the set has an allocation.
pub open spec fn covers(allocs: Map<u64, Rect>, s: Seq<SurfaceSize>) -> bool {
    forall|i: int| 0 <= i < s.len() ==> allocs.contains_key(#[trigger] s[i].entity)
}

/// The rectangle has exactly the surface's declared size.
pub open spec fn sized_for(rect: Rect, s: SurfaceSize) -> bool {
    rect.w == s.width && rect.h == s.height
}

/// Every allocation of the old map survives unchanged in the new one.
pub open spec fn preserved(old_allocs: Map<u64, Rect>, new_allocs: Map<u64, Rect>) -> bool {
    forall|e: u64|
        #[trigger] old_allocs.contains_key(e) ==> new_allocs.contains_key(e) && new_allocs[e]
            == old_allocs[e]
}

/// An atlas with no surface allocated.
pub open spec fn no_allocations() -> Map<u64, Rect> {
    Map::empty()
}

/// A total area is never negative.
pub proof fn lemma_total_area_nonneg(s: Seq<SurfaceSize>)
    ensures
        total_area(s) >= 0,
    decreases s.len(),
{
    if s.len() > 0 {
        lemma_total_area_nonneg(s.drop_last());
    }
}

/// Extending a prefix by one surface adds exactly that surface's area.
pub proof fn lemma_total_area_take_step(s: Seq<SurfaceSize>, i: int)
    requires
        0 <= i < s.len(),
    ensures
        total_area(s.take(i + 1)) == total_area(s.take(i)) + s[i].width * s[i].height,
{
    assert(s.take(i + 1).drop_last() =~= s.take(i));
    assert(s.take(i + 1).last() == s[i]);
}

/// The areas of a prefix and the matching suffix add up to the whole.
pub proof fn lemma_total_area_split(s: Seq<SurfaceSize>, i: int)
    requires
        0 <= i <= s.len(),
    ensures
        total_area(s) == total_area(s.take(i)) + total_area(s.skip(i)),
    decreases s.len() - i,
{
    if i == s.len() {
        assert(s.take(i) =~= s);
    } else {
        lemma_total_area_split(s, i + 1);
        lemma_total_area_take_step(s, i);
        assert(s.skip(i).drop_first() =~= s.skip(i + 1));
        lemma_total_area_first(s.skip(i));
    }
}

/// Peeling the first surface off a non-empty set removes exactly its area.
proof fn lemma_total_area_first(s: Seq<SurfaceSize>)
    requires
        s.len() > 0,
    ensures
        total_area(s) == s.first().width * s.first().height + total_area(s.drop_first()),
    decreases s.len(),
{
    if s.len() == 1 {
        assert(s.drop_first() =~= Seq::<SurfaceSize>::empty());
        assert(s.drop_last() =~= Seq::<SurfaceSize>::empty());
    } else {
        lemma_total_area_first(s.drop_last());
        assert(s.drop_last().drop_first() =~= s.drop_first().drop_last());
        assert(s.drop_last().first() == s.first());
        assert(s.drop_first().last() == s.last());
    }
}

/// Removing one surface from the set removes exactly its area.
proof fn lemma_total_area_remove(s: Seq<SurfaceSize>, i: int)
    requires
        0 <= i < s.len(),
    ensures
        total_area(s) == total_area(s.remove(i)) + s[i].width * s[i].height,
    decreases s.len(),
{
    if i == s.len() - 1 {
        assert(s.remove(i) =~= s.drop_last());
    } else {
        lemma_total_area_remove(s.drop_last(), i);
        assert(s.remove(i).drop_last() =~= s.drop_last().remove(i));
        assert(s.remove(i).last() == s.last());
    }
}

/// The total area of a surface set does not depend on the order in which the
/// set is listed: any two listings with the same multiset of surfaces have
/// the same total area.
pub proof fn lemma_total_area_permutation(s1: Seq<SurfaceSize>, s2: Seq<SurfaceSize>)
    requires
        s1.to_multiset() == s2.to_multiset(),
    ensures
        total_area(s1) == total_area(s2),
    decreases s1.len(),
{
    broadcast use vstd::seq_lib::group_to_multiset_ensures;

    if s1.len() == 0 {
        assert(s2.to_multiset().len() == 0);
        assert(s2.len() == 0);
    } else {
        let x = s1.last();
        assert(s1.contains(x));
        assert(s1.to_multiset().count(x) > 0);
        assert(s2.to_multiset().count(x) > 0);
        assert(s2.contains(x));
        let j = choose|j: int| 0 <= j < s2.len() && s2[j] == x;
        let i = s1.len() - 1;
        assert(s1.remove(i).to_multiset() =~= s1.to_multiset().remove(x));
        assert(s2.remove(j).to_multiset() =~= s2.to_multiset().remove(x));
        assert(s1.remove(i) =~= s1.drop_last());
        lemma_total_area_permutation(s1.drop_last(), s2.remove(j));
        lemma_total_area_remove(s2, j);
    }
}

} // verus!
