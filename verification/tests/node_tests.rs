use rive_atlas::geom::SurfaceSize;
use rive_atlas::node::{RenderPlan, VelloContext, VelloNode};

fn surface(entity: u64, width: u32, height: u32) -> SurfaceSize {
    SurfaceSize { entity, width, height }
}

fn regions_disjoint(a: &rive_atlas::node::CopyOp, b: &rive_atlas::node::CopyOp) -> bool {
    a.src_x + a.width <= b.src_x
        || b.src_x + b.width <= a.src_x
        || a.src_y + a.height <= b.src_y
        || b.src_y + b.height <= a.src_y
}

#[test]
fn test_render_runs_once_per_frame() {
    // Within one frame, however often the render graph invokes the node,
    // the composite-and-copy work is planned exactly once; the side-effect
    // counter is the number of plans handed out.
    let sizes = vec![surface(1, 100, 100), surface(2, 50, 200)];
    let mut context = VelloContext::new();
    let mut node = VelloNode::new();
    node.update(&mut context, &sizes);

    let mut work_count = 0;
    for _ in 0..4 {
        if node.run(&mut context, &sizes).is_some() {
            work_count += 1;
        }
    }
    assert_eq!(work_count, 1);

    context.reset_renderer();
    assert!(node.run(&mut context, &sizes).is_some(), "a new frame renders again");
    assert!(node.run(&mut context, &sizes).is_none());
}

#[test]
fn test_update_is_gated_too() {
    let sizes = vec![surface(1, 100, 100)];
    let mut context = VelloContext::new();
    let mut node = VelloNode::new();
    node.update(&mut context, &sizes);
    assert!(node.run(&mut context, &sizes).is_some());
    // After the frame rendered, a second preparation pass is a no-op.
    let outcome = node.update(&mut context, &sizes);
    assert!(outcome.complete);
    assert!(outcome.recreate_texture.is_none());
}

#[test]
fn test_update_recreates_texture_on_size_change() {
    let sizes = vec![surface(1, 100, 100)];
    let mut context = VelloContext::new();
    let mut node = VelloNode::new();
    let first = node.update(&mut context, &sizes);
    assert!(first.complete);
    assert_eq!(first.recreate_texture, Some(256), "no texture existed yet");
    assert!(node.run(&mut context, &sizes).is_some());

    context.reset_renderer();
    let second = node.update(&mut context, &sizes);
    assert!(second.complete);
    assert_eq!(second.recreate_texture, None, "the texture already matches");

    // Dropping the surface set to a small working set shrinks the atlas,
    // which requires a new GPU texture.
    context.reset_renderer();
    let small = vec![surface(2, 16, 16)];
    let third = node.update(&mut context, &small);
    assert!(third.complete);
    assert_eq!(third.recreate_texture, Some(32));
}

#[test]
fn test_plan_places_and_copies_every_surface() {
    let sizes = vec![surface(1, 100, 100), surface(2, 50, 200), surface(3, 300, 10)];
    let mut context = VelloContext::new();
    let mut node = VelloNode::new();
    let outcome = node.update(&mut context, &sizes);
    assert!(outcome.complete);
    let plan: RenderPlan = node.run(&mut context, &sizes).expect("first render of the frame");

    assert_eq!(plan.placements.len(), 3);
    assert_eq!(plan.copies.len(), 3);
    for (placement, copy) in plan.placements.iter().zip(plan.copies.iter()) {
        assert_eq!(placement.entity, copy.entity);
        assert_eq!((placement.x, placement.y), (copy.src_x, copy.src_y));
        let declared = sizes.iter().find(|s| s.entity == copy.entity).unwrap();
        assert_eq!((copy.width, copy.height), (declared.width, declared.height));
        assert!(copy.src_x + copy.width <= plan.width);
        assert!(copy.src_y + copy.height <= plan.height);
    }
    for (i, a) in plan.copies.iter().enumerate() {
        for b in plan.copies.iter().skip(i + 1) {
            assert!(regions_disjoint(a, b), "copy-back regions never overlap");
        }
    }
    assert!(plan.width <= 512 && plan.height <= 512);
}

#[test]
fn test_surface_added_after_update_waits_a_frame() {
    // A surface that appears after the preparation phase is skipped this
    // frame (one-frame latency) and picked up next frame.
    let first_frame = vec![surface(1, 100, 100)];
    let mut context = VelloContext::new();
    let mut node = VelloNode::new();
    node.update(&mut context, &first_frame);

    let with_newcomer = vec![surface(1, 100, 100), surface(2, 50, 50)];
    let plan = node.run(&mut context, &with_newcomer).unwrap();
    assert_eq!(plan.placements.len(), 1);
    assert_eq!(plan.placements[0].entity, 1);

    context.reset_renderer();
    node.update(&mut context, &with_newcomer);
    let plan = node.run(&mut context, &with_newcomer).unwrap();
    assert_eq!(plan.placements.len(), 2);
}

#[test]
fn test_surface_removed_before_run_is_skipped() {
    let both = vec![surface(1, 100, 100), surface(2, 50, 50)];
    let mut context = VelloContext::new();
    let mut node = VelloNode::new();
    node.update(&mut context, &both);

    let only_second = vec![surface(2, 50, 50)];
    let plan = node.run(&mut context, &only_second).unwrap();
    assert_eq!(plan.placements.len(), 1);
    assert_eq!(plan.placements[0].entity, 2);
}

#[test]
fn test_empty_surface_set_renders_nothing() {
    let sizes: Vec<SurfaceSize> = Vec::new();
    let mut context = VelloContext::new();
    let mut node = VelloNode::new();
    let outcome = node.update(&mut context, &sizes);
    assert!(outcome.complete);
    assert_eq!(outcome.recreate_texture, Some(1), "the empty set still gets a minimal atlas");
    let plan = node.run(&mut context, &sizes).unwrap();
    assert_eq!(plan.placements.len(), 0);
    assert_eq!(plan.copies.len(), 0);
    assert_eq!((plan.width, plan.height), (0, 0));
}
