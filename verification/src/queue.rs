//! The per-frame render queue: an ordered list of draw requests, cleared
//! and rebuilt every simulation tick and consumed by the renderer.

use vstd::prelude::*;
use crate::geom::Vec2i;
use crate::art::Art;

verus! {

/// Where and how one mesh is to stand this frame. Headings are raw
/// direction vectors; the renderer turns them into angles.
#[derive(Clone, Copy, PartialEq, Eq, Structural, Debug)]
pub enum Pose {
    /// A car body or turret resting on the ground at `pos`, facing along
    /// `heading`.
    Ground { pos: Vec2i, heading: Vec2i },
    /// A wheel beside an axle: lifted by its radius, rolled in proportion
    /// to the travelled distance, with opposite handedness per side.
    Wheel { pos: Vec2i, radius: i64, heading: Vec2i, right_side: bool, travelled: i64 },
}

/// One draw request: which art to draw and where.
#[derive(Clone, Copy, PartialEq, Eq, Structural, Debug)]
pub struct DrawCmd {
    pub art: Art,
    pub pose: Pose,
}

/// The ordered draw requests of one frame. Draw order is insertion order;
/// nothing is deduplicated or sorted.
#[derive(Debug)]
pub struct RenderQueue {
    pub items: Vec<DrawCmd>,
}

impl Default for RenderQueue {
    /// An empty queue.
    fn default() -> (r: RenderQueue)
        ensures
            r.items@ == Seq::<DrawCmd>::empty(),
    {
        RenderQueue { items: Vec::new() }
    }
}

impl RenderQueue {
    /// An empty queue.
    pub fn new() -> (r: RenderQueue)
        ensures
            r.items@ == Seq::<DrawCmd>::empty(),
    {
        RenderQueue { items: Vec::new() }
    }

    /// Appends a ground draw request.
    pub fn draw(&mut self, art: Art, pos: Vec2i, heading: Vec2i)
        ensures
            final(self).items@ == old(self).items@.push(
                (DrawCmd { art, pose: Pose::Ground { pos, heading } })),
    {
        self.items.push(DrawCmd { art, pose: Pose::Ground { pos, heading } });
    }

    /// Appends a wheel draw request.
    pub fn draw_wheel(&mut self, art: Art, pos: Vec2i, radius: i64, heading: Vec2i,
        right_side: bool, travelled: i64)
        ensures
            final(self).items@ == old(self).items@.push(
                (DrawCmd { art, pose: Pose::Wheel { pos, radius, heading, right_side,
                    travelled } })),
    {
        self.items.push(DrawCmd {
            art,
            pose: Pose::Wheel { pos, radius, heading, right_side, travelled },
        });
    }

    /// Empties the queue; called once per frame before re-population.
    pub fn clear_draws(&mut self)
        ensures
            final(self).items@ == Seq::<DrawCmd>::empty(),
    {
        self.items.clear();
    }

    /// How many draw requests the queue holds.
    pub fn len(&self) -> (n: usize)
        ensures
            n == self.items@.len(),
    {
        self.items.len()
    }
}

} // verus!
