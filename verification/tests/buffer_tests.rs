use rive_atlas::atlas::VelloAtlas;
use rive_atlas::buffer::{copy_region, PixelBuffer};
use rive_atlas::geom::SurfaceSize;

#[test]
fn test_fill_and_set_pixel() {
    let mut buffer = PixelBuffer::new(4, 3, 7);
    for y in 0..3 {
        for x in 0..4 {
            assert_eq!(buffer.get_pixel(x, y), 7);
        }
    }
    buffer.set_pixel(2, 1, 99);
    assert_eq!(buffer.get_pixel(2, 1), 99);
    assert_eq!(buffer.get_pixel(1, 2), 7);
    assert_eq!(buffer.get_pixel(2, 0), 7);
}

#[test]
fn test_copy_region_leaves_outside_untouched() {
    let mut dst = PixelBuffer::new(8, 8, 0);
    let mut src = PixelBuffer::new(4, 4, 1);
    src.set_pixel(0, 0, 5);
    copy_region(&mut dst, &src, 0, 0, 2, 3, 2, 2);
    assert_eq!(dst.get_pixel(2, 3), 5);
    assert_eq!(dst.get_pixel(3, 3), 1);
    assert_eq!(dst.get_pixel(2, 4), 1);
    assert_eq!(dst.get_pixel(3, 4), 1);
    // A ring of untouched pixels around the copied region.
    assert_eq!(dst.get_pixel(1, 3), 0);
    assert_eq!(dst.get_pixel(4, 3), 0);
    assert_eq!(dst.get_pixel(2, 2), 0);
    assert_eq!(dst.get_pixel(2, 5), 0);
    assert_eq!(dst.get_pixel(0, 0), 0);
    assert_eq!(dst.get_pixel(7, 7), 0);
}

#[test]
fn test_round_trip_through_atlas_rectangle() {
    // A non-square fragment with asymmetric content: composite it into
    // the atlas at its allocated rectangle, copy the region back into a
    // destination of the declared size, and every pixel must come out at
    // the same logical coordinates (shared y-down convention, no flip).
    let sizes = vec![SurfaceSize { entity: 1, width: 3, height: 2 }];
    let mut atlas = VelloAtlas::new(&sizes);
    assert!(atlas.allocate_all(&sizes));
    let rect = atlas.get(1);
    assert_eq!((rect.w, rect.h), (3, 2));

    let mut fragment = PixelBuffer::new(3, 2, 0);
    let mut value = 10;
    for y in 0..2 {
        for x in 0..3 {
            fragment.set_pixel(x, y, value);
            value += 1;
        }
    }

    let mut atlas_texture = PixelBuffer::new(atlas.width(), atlas.height(), 0);
    copy_region(&mut atlas_texture, &fragment, 0, 0, rect.x, rect.y, 3, 2);

    let mut destination = PixelBuffer::new(3, 2, 0);
    copy_region(&mut destination, &atlas_texture, rect.x, rect.y, 0, 0, 3, 2);

    let mut expected = 10;
    for y in 0..2 {
        for x in 0..3 {
            assert_eq!(destination.get_pixel(x, y), expected);
            expected += 1;
        }
    }
    // Explicitly: content is upright, not flipped or transposed.
    assert_eq!(destination.get_pixel(0, 0), 10);
    assert_eq!(destination.get_pixel(2, 0), 12);
    assert_eq!(destination.get_pixel(0, 1), 13);
    assert_eq!(destination.get_pixel(2, 1), 15);
}

#[test]
fn test_two_fragments_share_one_atlas_without_bleeding() {
    let sizes = vec![
        SurfaceSize { entity: 1, width: 2, height: 2 },
        SurfaceSize { entity: 2, width: 2, height: 2 },
    ];
    let mut atlas = VelloAtlas::new(&sizes);
    assert!(atlas.allocate_all(&sizes));
    let r1 = atlas.get(1);
    let r2 = atlas.get(2);

    let frag1 = PixelBuffer::new(2, 2, 11);
    let frag2 = PixelBuffer::new(2, 2, 22);
    let mut atlas_texture = PixelBuffer::new(atlas.width(), atlas.height(), 0);
    copy_region(&mut atlas_texture, &frag1, 0, 0, r1.x, r1.y, 2, 2);
    copy_region(&mut atlas_texture, &frag2, 0, 0, r2.x, r2.y, 2, 2);

    let mut d1 = PixelBuffer::new(2, 2, 0);
    let mut d2 = PixelBuffer::new(2, 2, 0);
    copy_region(&mut d1, &atlas_texture, r1.x, r1.y, 0, 0, 2, 2);
    copy_region(&mut d2, &atlas_texture, r2.x, r2.y, 0, 0, 2, 2);
    for y in 0..2 {
        for x in 0..2 {
            assert_eq!(d1.get_pixel(x, y), 11);
            assert_eq!(d2.get_pixel(x, y), 22);
        }
    }
}
