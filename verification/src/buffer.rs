//! A pixel-exact model of the GPU texture operations the compositor and the
//! copy-back stage perform: rectangular region copies between row-major
//! pixel buffers. The round-trip law at the bottom is what the pipeline
//! owes each surface: composite a fragment into the atlas at its allocated
//! rectangle, copy the same region back out, and the destination shows the
//! fragment's content at the same logical coordinates. All buffers share
//! the y-down coordinate convention, so no vertical-flip term enters the
//! offsets.

use vstd::prelude::*;

use vstd::pervasive::VecAdditionalExecFns;

use crate::geom::MAX_ATLAS_SIDE;

verus! {

/// Row-major indices stay inside the buffer, and the buffer's pixel count
/// stays well within the address space.
proof fn lemma_index_bound(x: int, y: int, w: int, h: int)
    requires
        0 <= x < w,
        0 <= y < h,
        w <= MAX_ATLAS_SIDE,
        h <= MAX_ATLAS_SIDE,
    ensures
        0 <= y * w + x < w * h,
        w * h <= 0x4000_0000,
{
    assert(0 <= y * w + x < w * h && w * h <= 0x4000_0000) by (nonlinear_arith)
        requires
            0 <= x < w,
            0 <= y < h,
            w <= 32768,
            h <= 32768,
    ;
}

/// Distinct pixel coordinates have distinct row-major indices.
proof fn lemma_index_injective(x1: int, y1: int, x2: int, y2: int, w: int)
    requires
        0 <= x1 < w,
        0 <= x2 < w,
        0 <= y1,
        0 <= y2,
        !(x1 == x2 && y1 == y2),
    ensures
        y1 * w + x1 != y2 * w + x2,
{
    assert(y1 * w + x1 != y2 * w + x2) by (nonlinear_arith)
        requires
            0 <= x1 < w,
            0 <= x2 < w,
            0 <= y1,
            0 <= y2,
            !(x1 == x2 && y1 == y2),
    ;
}

/// A row-major pixel buffer, modeling one texture: the fragment a producer
/// published, the atlas, or a surface's destination texture.
pub struct PixelBuffer {
    data: Vec<u32>,
    width: u32,
    height: u32,
}

impl PixelBuffer {
    /// The buffer's width in pixels.
    pub closed spec fn width_spec(&self) -> int {
        self.width as int
    }

    /// The buffer's height in pixels.
    pub closed spec fn height_spec(&self) -> int {
        self.height as int
    }

    /// Row-major storage of exactly width times height pixels, within the
    /// texture size cap.
    pub closed spec fn wf(&self) -> bool {
        &&& self.data@.len() == self.width_spec() * self.height_spec()
        &&& self.width <= MAX_ATLAS_SIDE
        &&& self.height <= MAX_ATLAS_SIDE
    }

    /// The pixel at column `x` of row `y` (y grows downward).
    pub closed spec fn pixel(&self, x: int, y: int) -> u32 {
        self.data@[y * self.width_spec() + x]
    }

    /// A buffer of the given size with every pixel set to `fill`.
    pub fn new(width: u32, height: u32, fill: u32) -> (buffer: Self)
        requires
            width <= MAX_ATLAS_SIDE,
            height <= MAX_ATLAS_SIDE,
        ensures
            buffer.wf(),
            buffer.width_spec() == width,
            buffer.height_spec() == height,
            forall|x: int, y: int|
                0 <= x < width && 0 <= y < height ==> #[trigger] buffer.pixel(x, y) == fill,
    {
        proof {
            assert((width as int) * (height as int) <= 0x4000_0000) by (nonlinear_arith)
                requires
                    width <= 32768,
                    height <= 32768,
            ;
        }
        let count: usize = (width as usize) * (height as usize);
        let mut data: Vec<u32> = Vec::new();
        let mut i: usize = 0;
        while i < count
            invariant
                0 <= i <= count,
                data@.len() == i,
                forall|j: int| 0 <= j < i ==> data@[j] == fill,
            decreases count - i,
        {
            data.push(fill);
            i = i + 1;
        }
        let buffer = PixelBuffer { data, width, height };
        proof {
            assert forall|x: int, y: int|
                0 <= x < width && 0 <= y < height implies #[trigger] buffer.pixel(x, y) == fill by {
                lemma_index_bound(x, y, width as int, height as int);
            }
        }
        buffer
    }

    /// The buffer's width in pixels.
    pub fn width(&self) -> (w: u32)
        ensures
            w == self.width_spec(),
    {
        self.width
    }

    /// The buffer's height in pixels.
    pub fn height(&self) -> (h: u32)
        ensures
            h == self.height_spec(),
    {
        self.height
    }

    /// Read one pixel.
    pub fn get_pixel(&self, x: u32, y: u32) -> (value: u32)
        requires
            self.wf(),
            x < self.width_spec(),
            y < self.height_spec(),
        ensures
            value == self.pixel(x as int, y as int),
    {
        proof {
            lemma_index_bound(x as int, y as int, self.width_spec(), self.height_spec());
        }
        self.data[(y as usize) * (self.width as usize) + (x as usize)]
    }

    /// Write one pixel; every other pixel keeps its value.
    pub fn set_pixel(&mut self, x: u32, y: u32, value: u32)
        requires
            old(self).wf(),
            x < old(self).width_spec(),
            y < old(self).height_spec(),
        ensures
            final(self).wf(),
            final(self).width_spec() == old(self).width_spec(),
            final(self).height_spec() == old(self).height_spec(),
            final(self).pixel(x as int, y as int) == value,
            forall|x2: int, y2: int|
                0 <= x2 < old(self).width_spec() && 0 <= y2 < old(self).height_spec() && !(x2 == x
                    && y2 == y) ==> #[trigger] final(self).pixel(x2, y2) == old(self).pixel(x2, y2),
    {
        proof {
            lemma_index_bound(x as int, y as int, self.width_spec(), self.height_spec());
        }
        self.data.set((y as usize) * (self.width as usize) + (x as usize), value);
        proof {
            assert forall|x2: int, y2: int|
                0 <= x2 < self.width_spec() && 0 <= y2 < self.height_spec() && !(x2 == x && y2
                    == y) implies #[trigger] self.pixel(x2, y2) == old(self).pixel(x2, y2) by {
                lemma_index_bound(x2, y2, self.width_spec(), self.height_spec());
                lemma_index_injective(x2, y2, x as int, y as int, self.width_spec());
            }
        }
    }
}

/// `post` is `pre` with the `w` by `h` region at `(dst_x, dst_y)` replaced
/// by the same-sized region of `src` at `(src_x, src_y)`, pixel for pixel,
/// and every pixel outside that region untouched.
pub open spec fn region_copied(
    pre: PixelBuffer,
    post: PixelBuffer,
    src: PixelBuffer,
    src_x: int,
    src_y: int,
    dst_x: int,
    dst_y: int,
    w: int,
    h: int,
) -> bool {
    &&& post.width_spec() == pre.width_spec()
    &&& post.height_spec() == pre.height_spec()
    &&& forall|x: int, y: int|
        dst_x <= x < dst_x + w && dst_y <= y < dst_y + h ==> #[trigger] post.pixel(x, y)
            == src.pixel(src_x + (x - dst_x), src_y + (y - dst_y))
    &&& forall|x: int, y: int|
        0 <= x < pre.width_spec() && 0 <= y < pre.height_spec() && !(dst_x <= x < dst_x + w && dst_y
            <= y < dst_y + h) ==> #[trigger] post.pixel(x, y) == pre.pixel(x, y)
}

/// Copy a `w` by `h` pixel region of `src` at `(src_x, src_y)` into `dst`
/// at `(dst_x, dst_y)`. With `dst` the atlas and `src` a fragment this is
/// the compositor's placement of one fragment; with `src` the atlas and
/// `dst` a destination texture it is one copy of the copy-back stage.
pub fn copy_region(
    dst: &mut PixelBuffer,
    src: &PixelBuffer,
    src_x: u32,
    src_y: u32,
    dst_x: u32,
    dst_y: u32,
    w: u32,
    h: u32,
)
    requires
        old(dst).wf(),
        src.wf(),
        src_x + w <= src.width_spec(),
        src_y + h <= src.height_spec(),
        dst_x + w <= old(dst).width_spec(),
        dst_y + h <= old(dst).height_spec(),
    ensures
        final(dst).wf(),
        region_copied(
            *old(dst),
            *final(dst),
            *src,
            src_x as int,
            src_y as int,
            dst_x as int,
            dst_y as int,
            w as int,
            h as int,
        ),
{
    let mut dy: u32 = 0;
    while dy < h
        invariant
            0 <= dy <= h,
            dst.wf(),
            src.wf(),
            dst.width_spec() == old(dst).width_spec(),
            dst.height_spec() == old(dst).height_spec(),
            src_x + w <= src.width_spec(),
            src_y + h <= src.height_spec(),
            dst_x + w <= dst.width_spec(),
            dst_y + h <= dst.height_spec(),
            forall|x: int, y: int|
                dst_x <= x < dst_x + w && dst_y <= y < dst_y + dy ==> #[trigger] dst.pixel(x, y)
                    == src.pixel(src_x + (x - dst_x), src_y + (y - dst_y)),
            forall|x: int, y: int|
                0 <= x < dst.width_spec() && 0 <= y < dst.height_spec() && !(dst_x <= x < dst_x + w
                    && dst_y <= y < dst_y + dy) ==> #[trigger] dst.pixel(x, y) == old(dst).pixel(
                    x,
                    y,
                ),
        decreases h - dy,
    {
        let mut dx: u32 = 0;
        while dx < w
            invariant
                0 <= dx <= w,
                0 <= dy < h,
                dst.wf(),
                src.wf(),
                dst.width_spec() == old(dst).width_spec(),
                dst.height_spec() == old(dst).height_spec(),
                src_x + w <= src.width_spec(),
                src_y + h <= src.height_spec(),
                dst_x + w <= dst.width_spec(),
                dst_y + h <= dst.height_spec(),
                forall|x: int, y: int|
                    dst_x <= x < dst_x + w && dst_y <= y < dst_y + dy ==> #[trigger] dst.pixel(x, y)
                        == src.pixel(src_x + (x - dst_x), src_y + (y - dst_y)),
                forall|x: int|
                    dst_x <= x < dst_x + dx ==> #[trigger] dst.pixel(x, dst_y + dy) == src.pixel(
                        src_x + (x - dst_x),
                        src_y + dy,
                    ),
                forall|x: int, y: int|
                    0 <= x < dst.width_spec() && 0 <= y < dst.height_spec() && !(dst_x <= x < dst_x
                        + w && dst_y <= y < dst_y + dy) && !(y == dst_y + dy && dst_x <= x < dst_x
                        + dx) ==> #[trigger] dst.pixel(x, y) == old(dst).pixel(x, y),
            decreases w - dx,
        {
            let value = src.get_pixel(src_x + dx, src_y + dy);
            dst.set_pixel(dst_x + dx, dst_y + dy, value);
            dx = dx + 1;
        }
        dy = dy + 1;
    }
}

/// Round trip (composite, then copy back): compositing a `w` by `h`
/// fragment into the atlas at its allocated rectangle's origin
/// `(at_x, at_y)` and then copying that region back into a destination of
/// the fragment's size reproduces the fragment exactly: the destination
/// pixel at `(x, y)` equals the fragment pixel at the same logical
/// `(x, y)`. All coordinates share the y-down convention, so the mapping is
/// the identity, with no flip term.
pub proof fn lemma_composite_copy_round_trip(
    frag: PixelBuffer,
    atlas_pre: PixelBuffer,
    atlas_post: PixelBuffer,
    dest_pre: PixelBuffer,
    dest_post: PixelBuffer,
    at_x: int,
    at_y: int,
    w: int,
    h: int,
    x: int,
    y: int,
)
    requires
        region_copied(atlas_pre, atlas_post, frag, 0, 0, at_x, at_y, w, h),
        region_copied(dest_pre, dest_post, atlas_post, at_x, at_y, 0, 0, w, h),
        0 <= x < w,
        0 <= y < h,
    ensures
        dest_post.pixel(x, y) == frag.pixel(x, y),
{
    assert(dest_post.pixel(x, y) == atlas_post.pixel(at_x + x, at_y + y));
    assert(atlas_post.pixel(at_x + x, at_y + y) == frag.pixel(x, y));
}

} // verus!
