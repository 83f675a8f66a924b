//! Screen space: viewports in physical pixels, cursor positions in logical
//! pixels, and what a camera reports of the particles in front of it.

use vstd::prelude::*;
use crate::fixed::{mul_scaled, scaled, ONE};
use crate::ray::Ray3d;

verus! {

/// The rectangle of the render target that a camera draws into, in whole
/// physical pixels.
#[derive(Clone, Copy, Debug, PartialEq, Eq, Structural)]
pub struct Viewport {
    pub x: u32,
    pub y: u32,
    pub width: u32,
    pub height: u32,
}

impl Viewport {
    /// The physical point `(px, py)`, in millionths of a pixel, lies in the
    /// rectangle. The left and top edges belong to it; the right and bottom
    /// edges do not.
    pub open spec fn contains(self, px: int, py: int) -> bool {
        &&& self.x * ONE <= px < (self.x + self.width) * ONE
        &&& self.y * ONE <= py < (self.y + self.height) * ONE
    }

    /// Tests whether a physical point lies in the rectangle.
    pub fn contains_point(&self, px: i128, py: i128) -> (inside: bool)
        ensures
            inside == self.contains(px as int, py as int),
    {
        let left: i128 = self.x as i128 * ONE as i128;
        let right: i128 = (self.x as i128 + self.width as i128) * ONE as i128;
        let top: i128 = self.y as i128 * ONE as i128;
        let bottom: i128 = (self.y as i128 + self.height as i128) * ONE as i128;
        left <= px && px < right && top <= py && py < bottom
    }
}

/// A logical pixel coordinate scaled to physical pixels by the display's
/// scale factor.
pub open spec fn physical(logical: int, scale_factor: int) -> int {
    scaled(logical, scale_factor)
}

/// Scales a logical pixel coordinate to physical pixels.
pub fn to_physical(logical: i64, scale_factor: i64) -> (p: i128)
    ensures
        p == physical(logical as int, scale_factor as int),
        -0x4000_0000_0000_0000_0000_0000_0000_0000 <= p <= 0x4000_0000_0000_0000_0000_0000_0000_0000,
{
    mul_scaled(logical, scale_factor)
}

/// A particle as a camera sees it: its position in normalized device
/// coordinates, where `-ONE` and `ONE` are the edges of the viewport and
/// `y` points up.
#[derive(Clone, Copy, Debug, PartialEq, Eq, Structural)]
pub struct NdcPoint {
    pub entity: u64,
    pub x: i64,
    pub y: i64,
}

/// What one camera reports for a frame.
pub struct CameraView {
    /// The camera's viewport, if it has one.
    pub viewport: Option<Viewport>,
    /// The world ray through the cursor, if the camera can form one.
    pub pick_ray: Option<Ray3d>,
    /// The projections of the particles in front of the camera. A particle
    /// behind the camera has none.
    pub points: Vec<NdcPoint>,
}

/// A camera takes the physical point: its viewport contains it, or it has no
/// viewport and `accept_unbounded` is set.
pub open spec fn camera_accepts(
    viewport: Option<Viewport>,
    px: int,
    py: int,
    accept_unbounded: bool,
) -> bool {
    match viewport {
        Some(vp) => vp.contains(px, py),
        None => accept_unbounded,
    }
}

/// `index` is the first camera of `viewports` that takes the point.
pub open spec fn is_first_camera(
    viewports: Seq<Option<Viewport>>,
    px: int,
    py: int,
    accept_unbounded: bool,
    index: int,
) -> bool {
    &&& 0 <= index < viewports.len()
    &&& camera_accepts(viewports[index], px, py, accept_unbounded)
    &&& forall|k: int| 0 <= k < index ==> !camera_accepts(viewports[k], px, py, accept_unbounded)
}

/// The first camera of `viewports` that takes the point, if any does.
pub open spec fn first_camera(
    viewports: Seq<Option<Viewport>>,
    px: int,
    py: int,
    accept_unbounded: bool,
) -> Option<int> {
    if exists|i: int| is_first_camera(viewports, px, py, accept_unbounded, i) {
        Some(choose|i: int| is_first_camera(viewports, px, py, accept_unbounded, i))
    } else {
        None
    }
}

/// Finds the first camera whose viewport contains the physical point; with
/// `accept_unbounded`, a camera without a viewport also counts.
pub fn find_camera(
    viewports: &Vec<Option<Viewport>>,
    px: i128,
    py: i128,
    accept_unbounded: bool,
) -> (found: Option<usize>)
    ensures
        match found {
            Some(c) => first_camera(viewports@, px as int, py as int, accept_unbounded) == Some(
                c as int,
            ),
            None => first_camera(viewports@, px as int, py as int, accept_unbounded).is_none(),
        },
        found matches Some(c) ==> c < viewports@.len() && camera_accepts(
            viewports@[c as int],
            px as int,
            py as int,
            accept_unbounded,
        ),
{
    let n: usize = viewports.len();
    let mut i: usize = 0;
    while i < n
        invariant
            n == viewports@.len(),
            i <= n,
            forall|k: int|
                0 <= k < i ==> !camera_accepts(viewports@[k], px as int, py as int, accept_unbounded),
        decreases n - i,
    {
        let accepts: bool = match viewports[i] {
            Some(vp) => vp.contains_point(px, py),
            None => accept_unbounded,
        };
        if accepts {
            proof {
                let ghost chosen = choose|j: int|
                    is_first_camera(viewports@, px as int, py as int, accept_unbounded, j);
                assert(is_first_camera(viewports@, px as int, py as int, accept_unbounded, i as int));
                assert(chosen == i);
            }
            return Some(i);
        }
        i += 1;
    }
    None
}

/// The viewports of `cameras`, in order.
pub open spec fn viewports_of(cameras: Seq<CameraView>) -> Seq<Option<Viewport>> {
    cameras.map_values(|c: CameraView| c.viewport)
}

/// Collects the viewports of `cameras`.
pub fn viewports(cameras: &Vec<CameraView>) -> (out: Vec<Option<Viewport>>)
    ensures
        out@ == viewports_of(cameras@),
{
    let n: usize = cameras.len();
    let mut out: Vec<Option<Viewport>> = Vec::new();
    let mut i: usize = 0;
    while i < n
        invariant
            n == cameras@.len(),
            i <= n,
            out@.len() == i,
            forall|k: int| 0 <= k < i ==> out@[k] == cameras@[k].viewport,
        decreases n - i,
    {
        out.push(cameras[i].viewport);
        i += 1;
    }
    assert(out@ =~= viewports_of(cameras@));
    out
}

} // verus!
