//! The wireframe box drawn around the selection.

use vstd::prelude::*;
use crate::fixed::{div_floor, in_range, COORD_MAX};
use crate::vector::{component, Axis, Vec3};
use crate::world::{any_selected, Particle, ParticleWorld};

verus! {

/// Space left between the outermost selected particles and the box (0.1 m).
pub const BOUNDING_BOX_PADDING: i64 = 100_000;

/// One edge of the box: a segment of `length` along `axis` centred at `translation`.
#[derive(Clone, Copy, Debug, PartialEq, Eq, Structural)]
pub struct BoxEdge {
    pub length: i64,
    pub translation: Vec3,
    pub axis: Axis,
}

/// The axis-aligned box around the selection, padding included.
#[derive(Clone, Copy, Debug, PartialEq, Eq, Structural)]
pub struct SelectionBoundingBox {
    pub min: Vec3,
    pub max: Vec3,
}

/// Along `axis`, `lo` and `hi` are the least and the greatest coordinate
/// among the selected particles of `s`.
pub open spec fn is_extent(s: Seq<Particle>, axis: int, lo: int, hi: int) -> bool {
    &&& forall|k: int|
        0 <= k < s.len() && (#[trigger] s[k]).selected ==> lo <= component(s[k].translation, axis)
            <= hi
    &&& exists|k: int|
        0 <= k < s.len() && (#[trigger] s[k]).selected && component(s[k].translation, axis) == lo
    &&& exists|k: int|
        0 <= k < s.len() && (#[trigger] s[k]).selected && component(s[k].translation, axis) == hi
}

/// `b` is the box of the selected particles of `s`: on every axis it
/// reaches `BOUNDING_BOX_PADDING` beyond the outermost of them.
pub open spec fn is_bounding_box(s: Seq<Particle>, b: SelectionBoundingBox) -> bool {
    &&& is_extent(s, 0, b.min.x + BOUNDING_BOX_PADDING, b.max.x - BOUNDING_BOX_PADDING)
    &&& is_extent(s, 1, b.min.y + BOUNDING_BOX_PADDING, b.max.y - BOUNDING_BOX_PADDING)
    &&& is_extent(s, 2, b.min.z + BOUNDING_BOX_PADDING, b.max.z - BOUNDING_BOX_PADDING)
}

impl SelectionBoundingBox {
    /// Every corner is within padding of the coordinate range.
    pub open spec fn wf(self) -> bool {
        &&& -COORD_MAX - BOUNDING_BOX_PADDING <= self.min.x <= self.max.x <= COORD_MAX
            + BOUNDING_BOX_PADDING
        &&& -COORD_MAX - BOUNDING_BOX_PADDING <= self.min.y <= self.max.y <= COORD_MAX
            + BOUNDING_BOX_PADDING
        &&& -COORD_MAX - BOUNDING_BOX_PADDING <= self.min.z <= self.max.z <= COORD_MAX
            + BOUNDING_BOX_PADDING
    }

    /// The centre of the box, each axis rounded down.
    pub open spec fn center(self) -> Vec3 {
        Vec3 {
            x: ((self.min.x + self.max.x) / 2) as i64,
            y: ((self.min.y + self.max.y) / 2) as i64,
            z: ((self.min.z + self.max.z) / 2) as i64,
        }
    }

    /// The twelve edges of the box: the four edges of the face at the least
    /// `z` (two along X at the least and greatest `y`, two along Y at the
    /// least and greatest `x`), the same four of the face at the greatest
    /// `z`, and the four edges along Z that join the two faces.
    pub open spec fn wireframe(self) -> Seq<BoxEdge> {
        let lo = self.min;
        let hi = self.max;
        let c = self.center();
        let width = (hi.x - lo.x) as i64;
        let height = (hi.y - lo.y) as i64;
        let depth = (hi.z - lo.z) as i64;
        seq![
            BoxEdge { length: width, translation: Vec3 { x: c.x, y: lo.y, z: lo.z }, axis: Axis::X },
            BoxEdge { length: width, translation: Vec3 { x: c.x, y: hi.y, z: lo.z }, axis: Axis::X },
            BoxEdge { length: height, translation: Vec3 { x: lo.x, y: c.y, z: lo.z }, axis: Axis::Y },
            BoxEdge { length: height, translation: Vec3 { x: hi.x, y: c.y, z: lo.z }, axis: Axis::Y },
            BoxEdge { length: width, translation: Vec3 { x: c.x, y: lo.y, z: hi.z }, axis: Axis::X },
            BoxEdge { length: width, translation: Vec3 { x: c.x, y: hi.y, z: hi.z }, axis: Axis::X },
            BoxEdge { length: height, translation: Vec3 { x: lo.x, y: c.y, z: hi.z }, axis: Axis::Y },
            BoxEdge { length: height, translation: Vec3 { x: hi.x, y: c.y, z: hi.z }, axis: Axis::Y },
            BoxEdge { length: depth, translation: Vec3 { x: lo.x, y: lo.y, z: c.z }, axis: Axis::Z },
            BoxEdge { length: depth, translation: Vec3 { x: hi.x, y: lo.y, z: c.z }, axis: Axis::Z },
            BoxEdge { length: depth, translation: Vec3 { x: lo.x, y: hi.y, z: c.z }, axis: Axis::Z },
            BoxEdge { length: depth, translation: Vec3 { x: hi.x, y: hi.y, z: c.z }, axis: Axis::Z },
        ]
    }

    /// The edges to draw.
    pub fn edges(&self) -> (out: Vec<BoxEdge>)
        requires
            self.wf(),
        ensures
            out@ == self.wireframe(),
    {
        let lo = self.min;
        let hi = self.max;
        let cx: i64 = div_floor(lo.x as i128 + hi.x as i128, 2) as i64;
        let cy: i64 = div_floor(lo.y as i128 + hi.y as i128, 2) as i64;
        let cz: i64 = div_floor(lo.z as i128 + hi.z as i128, 2) as i64;
        let width: i64 = hi.x - lo.x;
        let height: i64 = hi.y - lo.y;
        let depth: i64 = hi.z - lo.z;
        let mut out: Vec<BoxEdge> = Vec::new();
        out.push(BoxEdge { length: width, translation: Vec3 { x: cx, y: lo.y, z: lo.z }, axis: Axis::X });
        out.push(BoxEdge { length: width, translation: Vec3 { x: cx, y: hi.y, z: lo.z }, axis: Axis::X });
        out.push(BoxEdge { length: height, translation: Vec3 { x: lo.x, y: cy, z: lo.z }, axis: Axis::Y });
        out.push(BoxEdge { length: height, translation: Vec3 { x: hi.x, y: cy, z: lo.z }, axis: Axis::Y });
        out.push(BoxEdge { length: width, translation: Vec3 { x: cx, y: lo.y, z: hi.z }, axis: Axis::X });
        out.push(BoxEdge { length: width, translation: Vec3 { x: cx, y: hi.y, z: hi.z }, axis: Axis::X });
        out.push(BoxEdge { length: height, translation: Vec3 { x: lo.x, y: cy, z: hi.z }, axis: Axis::Y });
        out.push(BoxEdge { length: height, translation: Vec3 { x: hi.x, y: cy, z: hi.z }, axis: Axis::Y });
        out.push(BoxEdge { length: depth, translation: Vec3 { x: lo.x, y: lo.y, z: cz }, axis: Axis::Z });
        out.push(BoxEdge { length: depth, translation: Vec3 { x: hi.x, y: lo.y, z: cz }, axis: Axis::Z });
        out.push(BoxEdge { length: depth, translation: Vec3 { x: lo.x, y: hi.y, z: cz }, axis: Axis::Z });
        out.push(BoxEdge { length: depth, translation: Vec3 { x: hi.x, y: hi.y, z: cz }, axis: Axis::Z });
        assert(out@ =~= self.wireframe());
        out
    }
}

fn axis_value(v: Vec3, axis: u8) -> (c: i64)
    ensures
        c == component(v, axis as int),
{
    if axis == 0 {
        v.x
    } else if axis == 1 {
        v.y
    } else {
        v.z
    }
}

/// The least and greatest coordinate along `axis` among the selected particles.
fn selection_extent(world: &ParticleWorld, axis: u8) -> (extent: Option<(i64, i64)>)
    requires
        world.wf(),
    ensures
        match extent {
            Some((lo, hi)) => is_extent(world@, axis as int, lo as int, hi as int) && in_range(
                lo as int,
            ) && in_range(hi as int),
            None => !any_selected(world@),
        },
{
    let n: usize = world.len();
    let mut extent: Option<(i64, i64)> = None;
    let ghost mut at_lo: int = 0;
    let ghost mut at_hi: int = 0;
    let mut i: usize = 0;
    while i < n
        invariant
            world.wf(),
            n == world@.len(),
            i <= n,
            extent.is_none() ==> forall|k: int| 0 <= k < i ==> !(#[trigger] world@[k]).selected,
            extent matches Some((lo, hi)) ==> {
                &&& forall|k: int|
                    0 <= k < i && (#[trigger] world@[k]).selected ==> lo <= component(
                        world@[k].translation,
                        axis as int,
                    ) <= hi
                &&& 0 <= at_lo < i && world@[at_lo].selected && component(
                    world@[at_lo].translation,
                    axis as int,
                ) == lo
                &&& 0 <= at_hi < i && world@[at_hi].selected && component(
                    world@[at_hi].translation,
                    axis as int,
                ) == hi
                &&& in_range(lo as int)
                &&& in_range(hi as int)
            },
        decreases n - i,
    {
        let p: Particle = world.particle(i);
        assert(world@[i as int].wf());
        if p.selected {
            let c: i64 = axis_value(p.translation, axis);
            match extent {
                Some((lo, hi)) => {
                    let mut new_lo: i64 = lo;
                    let mut new_hi: i64 = hi;
                    if c < lo {
                        new_lo = c;
                        proof {
                            at_lo = i as int;
                        }
                    }
                    if c > hi {
                        new_hi = c;
                        proof {
                            at_hi = i as int;
                        }
                    }
                    extent = Some((new_lo, new_hi));
                },
                None => {
                    extent = Some((c, c));
                    proof {
                        at_lo = i as int;
                        at_hi = i as int;
                    }
                },
            }
        }
        i += 1;
    }
    proof {
        if extent.is_none() {
            if any_selected(world@) {
                let k = choose|k: int| 0 <= k < world@.len() && (#[trigger] world@[k]).selected;
                assert(!world@[k].selected);
            }
        } else {
            assert(world@[at_lo].selected);
            assert(world@[at_hi].selected);
        }
    }
    extent
}

/// Computes the box to draw around the selection: `None` when nothing is
/// selected, so that a box drawn earlier is removed; otherwise the box that
/// reaches `BOUNDING_BOX_PADDING` beyond the outermost selected particles.
pub fn update_selection_bounding_box(world: &ParticleWorld) -> (bounding_box: Option<
    SelectionBoundingBox,
>)
    requires
        world.wf(),
    ensures
        match bounding_box {
            Some(b) => any_selected(world@) && is_bounding_box(world@, b) && b.wf(),
            None => !any_selected(world@),
        },
{
    let (min_x, max_x) = match selection_extent(world, 0) {
        Some(e) => e,
        None => { return None; },
    };
    let (min_y, max_y) = match selection_extent(world, 1) {
        Some(e) => e,
        None => { return None; },
    };
    let (min_z, max_z) = match selection_extent(world, 2) {
        Some(e) => e,
        None => { return None; },
    };
    proof {
        let k = choose|k: int|
            0 <= k < world@.len() && (#[trigger] world@[k]).selected && component(
                world@[k].translation,
                0,
            ) == min_x;
        assert(world@[k].selected);
    }
    Some(
        SelectionBoundingBox {
            min: Vec3 {
                x: min_x - BOUNDING_BOX_PADDING,
                y: min_y - BOUNDING_BOX_PADDING,
                z: min_z - BOUNDING_BOX_PADDING,
            },
            max: Vec3 {
                x: max_x + BOUNDING_BOX_PADDING,
                y: max_y + BOUNDING_BOX_PADDING,
                z: max_z + BOUNDING_BOX_PADDING,
            },
        },
    )
}

} // verus!
