use rive_atlas::atlas::VelloAtlas;
use rive_atlas::geom::{Rect, SurfaceSize};

fn surface(entity: u64, width: u32, height: u32) -> SurfaceSize {
    SurfaceSize { entity, width, height }
}

fn rects_disjoint(a: Rect, b: Rect) -> bool {
    a.x + a.w <= b.x || b.x + b.w <= a.x || a.y + a.h <= b.y || b.y + b.h <= a.y
}

fn rect_within(r: Rect, side: u32) -> bool {
    r.x + r.w <= side && r.y + r.h <= side
}

#[test]
fn test_required_size_empty() {
    let sizes: Vec<SurfaceSize> = Vec::new();
    assert_eq!(VelloAtlas::required_size(&sizes), 1);
}

#[test]
fn test_required_size_single_pixel() {
    let sizes = vec![surface(1, 1, 1)];
    assert_eq!(VelloAtlas::required_size(&sizes), 2);
}

#[test]
fn test_required_size_growth_formula() {
    // Total area 100*100 + 50*200 + 300*10 = 23000; the theoretical minimum
    // side is about 152, the next power of two is 256, and 256 * 256 =
    // 65536 >= 2 * 23000, so no further doubling happens.
    let sizes = vec![surface(1, 100, 100), surface(2, 50, 200), surface(3, 300, 10)];
    assert_eq!(VelloAtlas::required_size(&sizes), 256);
}

#[test]
fn test_required_size_doubles_for_tight_fit() {
    // Total area 10000; the next power of two over sqrt(10000) is 128, but
    // 128 * 128 = 16384 < 20000, so the side doubles to 256.
    let sizes = vec![surface(1, 100, 100)];
    assert_eq!(VelloAtlas::required_size(&sizes), 256);
}

#[test]
fn test_required_size_order_independent() {
    let a = vec![surface(1, 100, 100), surface(2, 50, 200), surface(3, 300, 10)];
    let b = vec![surface(3, 300, 10), surface(1, 100, 100), surface(2, 50, 200)];
    let c = vec![surface(2, 50, 200), surface(3, 300, 10), surface(1, 100, 100)];
    let expected = VelloAtlas::required_size(&a);
    assert_eq!(VelloAtlas::required_size(&b), expected);
    assert_eq!(VelloAtlas::required_size(&c), expected);
}

#[test]
fn test_allocate_all_three_surfaces_disjoint() {
    // The growth formula asks for 256 (total area 23000, doubled 46000,
    // smallest fitting power of two 256), and the atlas starts there; the
    // 300-wide surface is wider than that, so packing grows the side once.
    let sizes = vec![surface(1, 100, 100), surface(2, 50, 200), surface(3, 300, 10)];
    let mut atlas = VelloAtlas::new(&sizes);
    assert_eq!(atlas.width(), 256);
    assert_eq!(atlas.height(), 256);
    assert!(atlas.allocate_all(&sizes));
    let rects: Vec<Rect> = sizes.iter().map(|s| {
        assert!(atlas.is_allocated(s.entity));
        atlas.get(s.entity)
    }).collect();
    for (i, (r, s)) in rects.iter().zip(sizes.iter()).enumerate() {
        assert_eq!((r.w, r.h), (s.width, s.height));
        assert!(rect_within(*r, atlas.width()));
        for other in rects.iter().skip(i + 1) {
            assert!(rects_disjoint(*r, *other));
        }
    }
    assert_eq!(atlas.width(), 512, "one surface is wider than 256, so the side doubled once");
}

#[test]
fn test_atlas_grows_when_full() {
    // The atlas starts sized for one small surface; a surface wider than
    // the whole atlas cannot be placed, so the side doubles and the full
    // set is repacked with disjoint rectangles.
    let initial = vec![surface(1, 100, 100)];
    let mut atlas = VelloAtlas::new(&initial);
    assert!(atlas.allocate_all(&initial));
    assert_eq!(atlas.width(), 256);

    let grown = vec![surface(1, 100, 100), surface(2, 300, 300)];
    assert!(atlas.allocate_all(&grown));
    assert_eq!(atlas.width(), 512);
    assert!(atlas.is_allocated(1));
    assert!(atlas.is_allocated(2));
    let r1 = atlas.get(1);
    let r2 = atlas.get(2);
    assert_eq!((r1.w, r1.h), (100, 100));
    assert_eq!((r2.w, r2.h), (300, 300));
    assert!(rects_disjoint(r1, r2));
    assert!(rect_within(r1, 512));
    assert!(rect_within(r2, 512));
}

#[test]
fn test_update_size_shrinks_and_clears() {
    // Removing the large surface drops the required area below a quarter
    // of the current atlas area, so the atlas is rebuilt smaller and the
    // remaining surface's allocation is recomputed, not reused.
    let both = vec![surface(1, 100, 100), surface(2, 16, 16)];
    let mut atlas = VelloAtlas::new(&both);
    assert!(atlas.allocate_all(&both));
    assert_eq!(atlas.width(), 256);

    let remaining = vec![surface(2, 16, 16)];
    atlas.update_size(&remaining);
    assert_eq!(atlas.width(), 32);
    assert!(!atlas.is_allocated(2), "a rebuild clears every allocation");
    assert!(atlas.allocate_all(&remaining));
    assert!(atlas.is_allocated(2));
    let r = atlas.get(2);
    assert_eq!((r.w, r.h), (16, 16));
    assert!(rect_within(r, 32));
}

#[test]
fn test_update_size_in_band_keeps_allocations() {
    // Shrinking the working set a little keeps the required area inside
    // the hysteresis band, so the atlas and its allocations stay as they
    // are.
    let initial = vec![surface(1, 100, 100)];
    let mut atlas = VelloAtlas::new(&initial);
    assert!(atlas.allocate_all(&initial));
    assert_eq!(atlas.width(), 256);
    let rect_before = atlas.get(1);

    let shrunk = vec![surface(1, 80, 80)];
    atlas.update_size(&shrunk);
    assert_eq!(atlas.width(), 256, "required 128 is inside [256*256/4, 256*256]");
    assert!(atlas.is_allocated(1));
    assert_eq!(atlas.get(1), rect_before);
}

#[test]
fn test_allocate_all_reports_exhaustion() {
    // Two surfaces as large as the whole largest atlas cannot both fit;
    // growth stops at the cap and the call reports the set as incomplete.
    let initial = vec![surface(1, 100, 100)];
    let mut atlas = VelloAtlas::new(&initial);
    let huge = vec![surface(1, 32768, 32768), surface(2, 32768, 32768)];
    assert!(!atlas.allocate_all(&huge));
    assert_eq!(atlas.width(), 32768);
}

#[test]
fn test_get_reports_declared_size() {
    // The packer reserves whole shelf rows and may pad a span well past
    // the requested size; the rectangle a surface sees is nevertheless
    // exactly its declared size.
    let sizes = vec![surface(1, 5, 3)];
    let mut atlas = VelloAtlas::new(&sizes);
    assert!(atlas.allocate_all(&sizes));
    let r = atlas.get(1);
    assert_eq!((r.w, r.h), (5, 3));
}

#[test]
fn test_stale_allocations_repacked_at_capacity() {
    // Allocations of removed surfaces linger until a rebuild; when they
    // accumulate close to the packer's span-count limit, the next
    // allocation pass rebuilds the packing at the same side and places
    // only the current set.
    let first: Vec<SurfaceSize> = (0..16000).map(|e| surface(e, 1, 1)).collect();
    let mut atlas = VelloAtlas::new(&first);
    assert!(atlas.allocate_all(&first));
    assert!(atlas.is_allocated(0));

    let second: Vec<SurfaceSize> = (20000..21000).map(|e| surface(e, 1, 1)).collect();
    assert!(atlas.allocate_all(&second));
    assert!(
        !atlas.is_allocated(0),
        "the rebuild drops the stale allocations of removed surfaces",
    );
    for s in &second {
        assert!(atlas.is_allocated(s.entity));
    }
}

#[test]
fn test_allocations_distinct_for_distinct_surfaces() {
    // The packing hands every surface its own spot: two equally sized
    // surfaces never share a rectangle.
    let sizes = vec![surface(7, 40, 40), surface(8, 40, 40)];
    let mut atlas = VelloAtlas::new(&sizes);
    assert!(atlas.allocate_all(&sizes));
    let r1 = atlas.get(7);
    let r2 = atlas.get(8);
    assert_ne!((r1.x, r1.y), (r2.x, r2.y));
    assert!(rects_disjoint(r1, r2));
}
