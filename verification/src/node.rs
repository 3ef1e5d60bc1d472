//! The frame-gated compositor node: once per frame it sizes the atlas,
//! allocates every surface, and plans the composite-and-copy work; any
//! further invocation in the same frame is a no-op until the frame gate is
//! reset at end-of-frame cleanup.
//!
//! Coordinate convention: the atlas, the fragments, and the destination
//! textures all use the same pixel coordinate system with the vertical axis
//! growing downward, so a fragment placed at its rectangle's origin and
//! copied back lands upright; no flip term enters the translation offsets.

use vstd::prelude::*;

use crate::atlas::{in_hysteresis_band, required_size_spec, unplaceable_at_cap, VelloAtlas};
use crate::geom::{
    area_ok, covers, distinct_entities, no_allocations, preserved, total_area, valid_sizes, Rect,
    SurfaceSize, MAX_ATLAS_SIDE, MAX_LIVE_ALLOCATIONS,
};

verus! {

/// The surface identities of a set, in listing order.
pub open spec fn entities_of(s: Seq<SurfaceSize>) -> Seq<u64> {
    s.map_values(|x: SurfaceSize| x.entity)
}

/// Some surface of the set has this identity.
pub open spec fn has_entity(sizes: Seq<SurfaceSize>, entity: u64) -> bool {
    exists|j: int| 0 <= j < sizes.len() && (#[trigger] sizes[j]).entity == entity
}

/// The surface of the set with this identity (unique when the set has
/// distinct identities).
pub open spec fn entity_size(sizes: Seq<SurfaceSize>, entity: u64) -> SurfaceSize {
    sizes[choose|j: int| 0 <= j < sizes.len() && (#[trigger] sizes[j]).entity == entity]
}

/// One fragment's position in the aggregate scene: the surface's fragment
/// is translated to its allocated rectangle's origin.
#[derive(Clone, Copy, Debug, PartialEq, Eq, Structural)]
pub struct Placement {
    pub entity: u64,
    pub x: u32,
    pub y: u32,
}

/// One GPU region copy: from the atlas at `(src_x, src_y)` into the
/// surface's destination texture at the origin, covering the surface's
/// declared size.
#[derive(Clone, Copy, Debug, PartialEq, Eq, Structural)]
pub struct CopyOp {
    pub entity: u64,
    pub src_x: u32,
    pub src_y: u32,
    pub width: u32,
    pub height: u32,
}

/// The composite-and-copy work of one frame: where to place each fragment,
/// the bounding box of the render pass (not necessarily the full atlas),
/// and the per-surface copies back into destination textures. Copies must
/// only be issued after the rasterization of the placements succeeded; on a
/// rasterization failure the whole frame's copy-back is skipped.
pub struct RenderPlan {
    pub placements: Vec<Placement>,
    pub width: u32,
    pub height: u32,
    pub copies: Vec<CopyOp>,
}

/// The listed surfaces that are live in the given set, in listing order.
pub open spec fn placed_entities(entities: Seq<u64>, sizes: Seq<SurfaceSize>) -> Seq<u64> {
    entities.filter(|e: u64| has_entity(sizes, e))
}

/// The placements the compositor owes: each placed surface's fragment at
/// its allocated rectangle's origin.
pub open spec fn placements_of(placed: Seq<u64>, allocs: Map<u64, Rect>) -> Seq<Placement> {
    placed.map_values(|e: u64| Placement { entity: e, x: allocs[e].x, y: allocs[e].y })
}

/// The copies the copy-back stage owes: for each placed surface, from its
/// allocated rectangle's origin, as many pixels as its declared size.
pub open spec fn copies_of(placed: Seq<u64>, sizes: Seq<SurfaceSize>, allocs: Map<u64, Rect>) -> Seq<
    CopyOp,
> {
    placed.map_values(
        |e: u64|
            CopyOp {
                entity: e,
                src_x: allocs[e].x,
                src_y: allocs[e].y,
                width: entity_size(sizes, e).width,
                height: entity_size(sizes, e).height,
            },
    )
}

/// The width of the bounding box of all placed rectangles.
pub open spec fn extent_width(placed: Seq<u64>, allocs: Map<u64, Rect>) -> int
    decreases placed.len(),
{
    if placed.len() == 0 {
        0
    } else {
        let rest = extent_width(placed.drop_last(), allocs);
        let reach = allocs[placed.last()].x + allocs[placed.last()].w;
        if reach > rest {
            reach
        } else {
            rest
        }
    }
}

/// The height of the bounding box of all placed rectangles.
pub open spec fn extent_height(placed: Seq<u64>, allocs: Map<u64, Rect>) -> int
    decreases placed.len(),
{
    if placed.len() == 0 {
        0
    } else {
        let rest = extent_height(placed.drop_last(), allocs);
        let reach = allocs[placed.last()].y + allocs[placed.last()].h;
        if reach > rest {
            reach
        } else {
            rest
        }
    }
}

/// A plan says exactly this: the listed surfaces still live in the set are
/// placed at their allocated rectangles, the render pass covers their
/// bounding box, and each gets one copy back into its destination.
pub open spec fn plan_matches(
    plan: RenderPlan,
    entities: Seq<u64>,
    sizes: Seq<SurfaceSize>,
    allocs: Map<u64, Rect>,
) -> bool {
    let placed = placed_entities(entities, sizes);
    &&& plan.placements@ == placements_of(placed, allocs)
    &&& plan.copies@ == copies_of(placed, sizes, allocs)
    &&& plan.width == extent_width(placed, allocs)
    &&& plan.height == extent_height(placed, allocs)
}

/// The shared compositor state: the atlas, the dimensions of the GPU atlas
/// texture backing it, and the frame gate.
pub struct VelloContext {
    atlas: Option<VelloAtlas>,
    atlas_texture_width: u32,
    atlas_texture_height: u32,
    has_rendered_this_frame: bool,
}

/// The two contexts agree on everything but the frame gate.
pub open spec fn same_compositor_state(a: VelloContext, b: VelloContext) -> bool {
    &&& a.has_atlas() == b.has_atlas()
    &&& a.allocs() == b.allocs()
    &&& a.atlas_side() == b.atlas_side()
    &&& a.texture_width() == b.texture_width()
    &&& a.texture_height() == b.texture_height()
}

impl VelloContext {
    /// Whether the composite-and-copy work already ran this frame.
    pub closed spec fn rendered(&self) -> bool {
        self.has_rendered_this_frame
    }

    /// Whether the atlas has been created yet (it is created lazily by the
    /// first `update` of the first frame).
    pub closed spec fn has_atlas(&self) -> bool {
        self.atlas is Some
    }

    /// The atlas side length; zero while no atlas exists.
    pub closed spec fn atlas_side(&self) -> int {
        match self.atlas {
            Some(a) => a.side(),
            None => 0,
        }
    }

    /// The current allocations; empty while no atlas exists.
    pub closed spec fn allocs(&self) -> Map<u64, Rect> {
        match self.atlas {
            Some(a) => a.allocs(),
            None => no_allocations(),
        }
    }

    /// Width of the GPU texture currently backing the atlas.
    pub closed spec fn texture_width(&self) -> int {
        self.atlas_texture_width as int
    }

    /// Height of the GPU texture currently backing the atlas.
    pub closed spec fn texture_height(&self) -> int {
        self.atlas_texture_height as int
    }

    /// The atlas, once created, is well-formed.
    pub closed spec fn wf(&self) -> bool {
        match self.atlas {
            Some(a) => a.wf(),
            None => true,
        }
    }

    /// A fresh context: no atlas yet, no texture, gate open.
    pub fn new() -> (context: Self)
        ensures
            context.wf(),
            !context.rendered(),
            !context.has_atlas(),
            context.texture_width() == 0,
            context.texture_height() == 0,
    {
        VelloContext {
            atlas: None,
            atlas_texture_width: 0,
            atlas_texture_height: 0,
            has_rendered_this_frame: false,
        }
    }

    /// Reset the frame gate. Must run once per frame, after all render
    /// invocations of that frame, so that the next frame composites anew.
    pub fn reset_renderer(&mut self)
        ensures
            !final(self).rendered(),
            final(self).wf() == old(self).wf(),
            same_compositor_state(*old(self), *final(self)),
    {
        self.has_rendered_this_frame = false;
    }
}

/// What `update` decided: whether every surface of the set ended up with an
/// allocation, and whether the GPU atlas texture must be recreated (with
/// the new square side) because the atlas side changed.
pub struct PrepareOutcome {
    pub complete: bool,
    pub recreate_texture: Option<u32>,
}

/// The render-graph node: snapshots the surface set during the preparation
/// phase and plans the composite-and-copy work during the execution phase.
pub struct VelloNode {
    scene_entities: Vec<u64>,
}

impl VelloNode {
    /// The surfaces snapshotted by the last `update`.
    pub closed spec fn entities(&self) -> Seq<u64> {
        self.scene_entities@
    }

    /// A fresh node with no surfaces snapshotted.
    pub fn new() -> (node: Self)
        ensures
            node.entities() == Seq::<u64>::empty(),
    {
        VelloNode { scene_entities: Vec::new() }
    }

    /// The preparation phase, run before the render pass: unless the frame
    /// already rendered, create or re-size the atlas for the current
    /// surface set, allocate every surface, snapshot the set, and decide
    /// whether the GPU atlas texture must be recreated.
    pub fn update(&mut self, context: &mut VelloContext, sizes: &Vec<SurfaceSize>) -> (outcome:
        PrepareOutcome)
        requires
            old(context).wf(),
            area_ok(sizes@),
            valid_sizes(sizes@),
            distinct_entities(sizes@),
            sizes@.len() <= MAX_LIVE_ALLOCATIONS,
        ensures
            final(context).wf(),
            old(context).rendered() ==> {
                &&& *final(context) == *old(context)
                &&& *final(self) == *old(self)
                &&& outcome.complete
                &&& outcome.recreate_texture is None
            },
            !old(context).rendered() ==> {
                &&& !final(context).rendered()
                &&& final(context).has_atlas()
                &&& final(self).entities() == entities_of(sizes@)
                &&& outcome.complete ==> covers(final(context).allocs(), sizes@)
                &&& !outcome.complete ==> final(context).atlas_side() == MAX_ATLAS_SIDE
                    && unplaceable_at_cap(sizes@)
                &&& final(context).texture_width() == final(context).atlas_side()
                &&& final(context).texture_height() == final(context).atlas_side()
                &&& match outcome.recreate_texture {
                    Some(side) => side == final(context).atlas_side() && !(old(
                        context,
                    ).texture_width() == final(context).atlas_side() && old(
                        context,
                    ).texture_height() == final(context).atlas_side()),
                    None => old(context).texture_width() == final(context).atlas_side() && old(
                        context,
                    ).texture_height() == final(context).atlas_side(),
                }
                &&& !old(context).has_atlas() ==> final(context).atlas_side()
                    >= required_size_spec(total_area(sizes@))
                &&& old(context).has_atlas() && !in_hysteresis_band(
                    required_size_spec(total_area(sizes@)),
                    old(context).atlas_side(),
                ) ==> final(context).atlas_side() >= required_size_spec(total_area(sizes@))
                &&& old(context).has_atlas() && in_hysteresis_band(
                    required_size_spec(total_area(sizes@)),
                    old(context).atlas_side(),
                ) ==> {
                    &&& final(context).atlas_side() >= old(context).atlas_side()
                    &&& (final(context).atlas_side() == old(context).atlas_side() && old(
                        context,
                    ).allocs().len() + sizes@.len() <= MAX_LIVE_ALLOCATIONS ==> preserved(
                        old(context).allocs(),
                        final(context).allocs(),
                    ))
                }
            },
    {
        if context.has_rendered_this_frame {
            return PrepareOutcome { complete: true, recreate_texture: None };
        }
        if context.atlas.is_none() {
            context.atlas = Some(VelloAtlas::new(sizes));
        } else {
            match &mut context.atlas {
                Some(atlas) => {
                    atlas.update_size(sizes);
                },
                None => {},
            }
        }
        let (complete, side): (bool, u32) = match &mut context.atlas {
            Some(atlas) => (atlas.allocate_all(sizes), atlas.width()),
            None => unreached(),
        };
        let recreate_texture: Option<u32> = if context.atlas_texture_width != side
            || context.atlas_texture_height != side {
            context.atlas_texture_width = side;
            context.atlas_texture_height = side;
            Some(side)
        } else {
            None
        };
        self.scene_entities = Vec::new();
        let mut i: usize = 0;
        while i < sizes.len()
            invariant
                0 <= i <= sizes@.len(),
                self.scene_entities@ == entities_of(sizes@.take(i as int)),
            decreases sizes@.len() - i,
        {
            let s = sizes[i];
            self.scene_entities.push(s.entity);
            proof {
                assert(entities_of(sizes@.take(i + 1)) =~= entities_of(sizes@.take(i as int)).push(
                    s.entity,
                ));
            }
            i = i + 1;
        }
        proof {
            assert(sizes@.take(sizes@.len() as int) =~= sizes@);
        }
        PrepareOutcome { complete, recreate_texture }
    }

    /// The execution phase, run from the render graph: if the frame already
    /// rendered, a no-op handing back no plan; otherwise the full
    /// composite-and-copy plan for the snapshotted surfaces still live in
    /// the set, closing the frame gate.
    pub fn run(&self, context: &mut VelloContext, sizes: &Vec<SurfaceSize>) -> (plan: Option<
        RenderPlan,
    >)
        requires
            old(context).wf(),
            distinct_entities(sizes@),
            !old(context).rendered() ==> old(context).has_atlas(),
            !old(context).rendered() ==> forall|k: int|
                0 <= k < self.entities().len() && has_entity(
                    sizes@,
                    #[trigger] self.entities()[k],
                ) ==> old(context).allocs().contains_key(self.entities()[k]),
        ensures
            final(context).wf(),
            run_post(self.entities(), *old(context), *final(context), sizes@, plan),
            old(context).rendered() ==> *final(context) == *old(context),
            match plan {
                Some(p) => p.width <= old(context).atlas_side() && p.height <= old(
                    context,
                ).atlas_side(),
                None => true,
            },
    {
        if context.has_rendered_this_frame {
            return None;
        }
        let mut placements: Vec<Placement> = Vec::new();
        let mut copies: Vec<CopyOp> = Vec::new();
        let mut width: u32 = 0;
        let mut height: u32 = 0;
        let ghost allocs = context.allocs();
        match &context.atlas {
            Some(atlas) => {
                let mut k: usize = 0;
                proof {
                    reveal(Seq::filter);
                    atlas.lemma_side_pow2();
                    assert(self.scene_entities@.take(0int) =~= Seq::<u64>::empty());
                    assert forall|j: int|
                        0 <= j < self.scene_entities@.len() && has_entity(
                            sizes@,
                            #[trigger] self.scene_entities@[j],
                        ) implies allocs.contains_key(self.scene_entities@[j]) by {
                        assert(self.entities()[j] == self.scene_entities@[j]);
                    }
                }
                while k < self.scene_entities.len()
                    invariant
                        0 <= k <= self.scene_entities@.len(),
                        atlas.wf(),
                        allocs == atlas.allocs(),
                        distinct_entities(sizes@),
                        forall|j: int|
                            0 <= j < self.scene_entities@.len() && has_entity(
                                sizes@,
                                #[trigger] self.scene_entities@[j],
                            ) ==> allocs.contains_key(self.scene_entities@[j]),
                        placements@ == placements_of(
                            placed_entities(self.scene_entities@.take(k as int), sizes@),
                            allocs,
                        ),
                        copies@ == copies_of(
                            placed_entities(self.scene_entities@.take(k as int), sizes@),
                            sizes@,
                            allocs,
                        ),
                        width == extent_width(
                            placed_entities(self.scene_entities@.take(k as int), sizes@),
                            allocs,
                        ),
                        height == extent_height(
                            placed_entities(self.scene_entities@.take(k as int), sizes@),
                            allocs,
                        ),
                        width <= atlas.side(),
                        height <= atlas.side(),
                    decreases self.scene_entities@.len() - k,
                {
                    let e = self.scene_entities[k];
                    let ghost placed_before = placed_entities(
                        self.scene_entities@.take(k as int),
                        sizes@,
                    );
                    proof {
                        reveal(Seq::filter);
                        assert(self.scene_entities@.take(k + 1).drop_last()
                            =~= self.scene_entities@.take(k as int));
                        assert(self.scene_entities@.take(k + 1).last() == e);
                    }
                    match find_surface(sizes, e) {
                        Some(s) => {
                            let rect = atlas.get(e);
                            proof {
                                atlas.lemma_allocation_within(e);
                                atlas.lemma_side_pow2();
                                let placed_now = placed_entities(
                                    self.scene_entities@.take(k + 1),
                                    sizes@,
                                );
                                assert(placed_now =~= placed_before.push(e));
                                assert(placed_now.drop_last() =~= placed_before);
                                assert(placements_of(placed_now, allocs) =~= placements_of(
                                    placed_before,
                                    allocs,
                                ).push(Placement { entity: e, x: rect.x, y: rect.y }));
                                assert(copies_of(placed_now, sizes@, allocs) =~= copies_of(
                                    placed_before,
                                    sizes@,
                                    allocs,
                                ).push(
                                    CopyOp {
                                        entity: e,
                                        src_x: rect.x,
                                        src_y: rect.y,
                                        width: s.width,
                                        height: s.height,
                                    },
                                ));
                            }
                            placements.push(Placement { entity: e, x: rect.x, y: rect.y });
                            copies.push(
                                CopyOp {
                                    entity: e,
                                    src_x: rect.x,
                                    src_y: rect.y,
                                    width: s.width,
                                    height: s.height,
                                },
                            );
                            let reach_x = rect.x + rect.w;
                            if reach_x > width {
                                width = reach_x;
                            }
                            let reach_y = rect.y + rect.h;
                            if reach_y > height {
                                height = reach_y;
                            }
                        },
                        None => {
                            proof {
                                let placed_now = placed_entities(
                                    self.scene_entities@.take(k + 1),
                                    sizes@,
                                );
                                assert(placed_now =~= placed_before);
                            }
                        },
                    }
                    k = k + 1;
                }
                proof {
                    assert(self.scene_entities@.take(self.scene_entities@.len() as int)
                        =~= self.scene_entities@);
                }
            },
            None => unreached(),
        }
        context.has_rendered_this_frame = true;
        Some(RenderPlan { placements, width, height, copies })
    }
}

/// What one invocation of the render entry point does to the compositor
/// state: if the frame already rendered, nothing, and no plan comes back;
/// otherwise the full plan for the node's snapshotted surfaces comes back,
/// the frame gate closes, and the compositor state is otherwise untouched.
pub open spec fn run_post(
    entities: Seq<u64>,
    pre: VelloContext,
    post: VelloContext,
    sizes: Seq<SurfaceSize>,
    plan: Option<RenderPlan>,
) -> bool {
    &&& post.rendered()
    &&& same_compositor_state(pre, post)
    &&& if pre.rendered() {
        plan is None
    } else {
        match plan {
            Some(p) => plan_matches(p, entities, sizes, pre.allocs()),
            None => false,
        }
    }
}

/// The frame gate makes the composite-and-copy work run exactly once per
/// frame: of any two invocations of the render entry point with no
/// `reset_renderer` between them, starting from a frame that has not yet
/// rendered, the first produces the plan and the second is a no-op.
pub proof fn lemma_renders_once_per_frame(
    entities: Seq<u64>,
    s0: VelloContext,
    s1: VelloContext,
    s2: VelloContext,
    sizes: Seq<SurfaceSize>,
    p1: Option<RenderPlan>,
    p2: Option<RenderPlan>,
)
    requires
        !s0.rendered(),
        run_post(entities, s0, s1, sizes, p1),
        run_post(entities, s1, s2, sizes, p2),
    ensures
        p1 is Some,
        p2 is None,
        same_compositor_state(s0, s1),
        same_compositor_state(s1, s2),
{
}

/// Look a surface up by identity in the set.
fn find_surface(sizes: &Vec<SurfaceSize>, entity: u64) -> (found: Option<SurfaceSize>)
    requires
        distinct_entities(sizes@),
    ensures
        match found {
            Some(s) => has_entity(sizes@, entity) && s == entity_size(sizes@, entity),
            None => !has_entity(sizes@, entity),
        },
{
    let mut i: usize = 0;
    while i < sizes.len()
        invariant
            0 <= i <= sizes@.len(),
            distinct_entities(sizes@),
            forall|j: int| 0 <= j < i ==> (#[trigger] sizes@[j]).entity != entity,
        decreases sizes@.len() - i,
    {
        let s = sizes[i];
        if s.entity == entity {
            return Some(s);
        }
        i = i + 1;
    }
    None
}

} // verus!
