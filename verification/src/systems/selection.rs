//! The drag-box gesture: starting it, drawing it, and applying it to the
//! selection when the button is released.

use vstd::prelude::*;
use crate::components::SelectionBoxState;
use crate::fixed::{div_floor, lemma_mul_bound, max_int, min_int, ONE};
use crate::screen::{
    find_camera, first_camera, physical, to_physical, viewports, viewports_of, CameraView,
    NdcPoint, Viewport,
};
use crate::vector::Vec2;
use crate::world::{contains_entity, selection_set, Particle, ParticleMaterial, ParticleWorld};

verus! {

/// A drag shorter than this (5 logical pixels) is a click that clears the selection.
pub const MIN_DRAG_DISTANCE: i64 = 5_000_000;

/// The box is drawn only when it is wider and higher than this (1 logical pixel).
pub const MIN_VISUAL_SIZE: i64 = 1_000_000;

/// The distance from `start` to `end` is below `MIN_DRAG_DISTANCE`.
pub open spec fn drag_below_threshold(start: Vec2, end: Vec2) -> bool {
    let dx = end.x - start.x;
    let dy = end.y - start.y;
    dx * dx + dy * dy < MIN_DRAG_DISTANCE * MIN_DRAG_DISTANCE
}

/// The centre of the box, in logical pixels.
pub open spec fn box_center(start: Vec2, end: Vec2) -> (int, int) {
    ((start.x + end.x) / 2, (start.y + end.y) / 2)
}

/// The drag box in physical pixels relative to a viewport's corner and cut
/// to the viewport.
struct BoxInViewport {
    pub left: i128,
    pub right: i128,
    pub top: i128,
    pub bottom: i128,
}

/// The left edge of the box inside `vp`.
pub open spec fn box_left(start: Vec2, end: Vec2, scale_factor: i64, vp: Viewport) -> int {
    max_int(
        min_int(physical(start.x as int, scale_factor as int), physical(end.x as int, scale_factor as int))
            - vp.x * ONE,
        0,
    )
}

/// The right edge of the box inside `vp`.
pub open spec fn box_right(start: Vec2, end: Vec2, scale_factor: i64, vp: Viewport) -> int {
    min_int(
        max_int(physical(start.x as int, scale_factor as int), physical(end.x as int, scale_factor as int))
            - vp.x * ONE,
        vp.width * ONE,
    )
}

/// The top edge of the box inside `vp`.
pub open spec fn box_top(start: Vec2, end: Vec2, scale_factor: i64, vp: Viewport) -> int {
    max_int(
        min_int(physical(start.y as int, scale_factor as int), physical(end.y as int, scale_factor as int))
            - vp.y * ONE,
        0,
    )
}

/// The bottom edge of the box inside `vp`.
pub open spec fn box_bottom(start: Vec2, end: Vec2, scale_factor: i64, vp: Viewport) -> int {
    min_int(
        max_int(physical(start.y as int, scale_factor as int), physical(end.y as int, scale_factor as int))
            - vp.y * ONE,
        vp.height * ONE,
    )
}

/// Twice the distance of a projected point from the viewport's left edge:
/// the device coordinate `-ONE` is the left edge, `ONE` the right edge.
pub open spec fn screen_x_twice(ndc_x: int, vp: Viewport) -> int {
    (ndc_x + ONE) * vp.width
}

/// Twice the distance of a projected point from the viewport's top edge:
/// the device coordinate `ONE` is the top edge, `-ONE` the bottom edge.
pub open spec fn screen_y_twice(ndc_y: int, vp: Viewport) -> int {
    (ONE - ndc_y) * vp.height
}

/// The projected point lies in the drag box, edges included.
pub open spec fn point_in_box(
    point: NdcPoint,
    start: Vec2,
    end: Vec2,
    scale_factor: i64,
    vp: Viewport,
) -> bool {
    &&& 2 * box_left(start, end, scale_factor, vp) <= screen_x_twice(point.x as int, vp)
    &&& screen_x_twice(point.x as int, vp) <= 2 * box_right(start, end, scale_factor, vp)
    &&& 2 * box_top(start, end, scale_factor, vp) <= screen_y_twice(point.y as int, vp)
    &&& screen_y_twice(point.y as int, vp) <= 2 * box_bottom(start, end, scale_factor, vp)
}

/// Some projection of `entity` lies in the drag box.
pub open spec fn covered(
    entity: u64,
    points: Seq<NdcPoint>,
    start: Vec2,
    end: Vec2,
    scale_factor: i64,
    vp: Viewport,
) -> bool {
    exists|k: int|
        0 <= k < points.len() && (#[trigger] points[k]).entity == entity && point_in_box(
            points[k],
            start,
            end,
            scale_factor,
            vp,
        )
}

/// `s` with every particle taken out of the selection and painted white.
pub open spec fn deselect_all(s: Seq<Particle>) -> Seq<Particle> {
    s.map_values(
        |p: Particle| Particle { selected: false, material: ParticleMaterial::White, ..p },
    )
}

/// `s` with every unselected particle that the box covers put into the
/// selection and painted purple. Selected particles stay as they are,
/// inside the box or not.
pub open spec fn box_selected(
    s: Seq<Particle>,
    points: Seq<NdcPoint>,
    start: Vec2,
    end: Vec2,
    scale_factor: i64,
    vp: Viewport,
) -> Seq<Particle> {
    s.map_values(
        |p: Particle|
            if !p.selected && covered(p.entity, points, start, end, scale_factor, vp) {
                Particle { selected: true, material: ParticleMaterial::Purple, ..p }
            } else {
                p
            },
    )
}

/// What applying a pending box to `s` gives: nothing is selected any more
/// after a short drag; otherwise the camera whose viewport holds the box's
/// centre (or the first camera without a viewport before it) decides. If
/// it has a viewport, the particles it sees inside the box join the
/// selection; if there is no such camera or it has no viewport, nothing changes.
pub open spec fn committed(
    s: Seq<Particle>,
    start: Vec2,
    end: Vec2,
    scale_factor: i64,
    cameras: Seq<CameraView>,
) -> Seq<Particle> {
    if drag_below_threshold(start, end) {
        deselect_all(s)
    } else {
        let c = box_center(start, end);
        match first_camera(
            viewports_of(cameras),
            physical(c.0, scale_factor as int),
            physical(c.1, scale_factor as int),
            true,
        ) {
            Some(i) => match cameras[i].viewport {
                Some(vp) => box_selected(s, cameras[i].points@, start, end, scale_factor, vp),
                None => s,
            },
            None => s,
        }
    }
}

/// The particles of `s` that the box covers.
pub open spec fn covered_set(
    s: Seq<Particle>,
    points: Seq<NdcPoint>,
    start: Vec2,
    end: Vec2,
    scale_factor: i64,
    vp: Viewport,
) -> Set<u64> {
    Set::new(
        |e: u64| contains_entity(s, e) && covered(e, points, start, end, scale_factor, vp),
    )
}

/// A drag box only adds to the selection: afterwards the selection is
/// what it was, together with the particles that the box covers. A
/// member that the box does not cover stays a member.
pub proof fn lemma_box_selection_is_union(
    s: Seq<Particle>,
    points: Seq<NdcPoint>,
    start: Vec2,
    end: Vec2,
    scale_factor: i64,
    vp: Viewport,
)
    ensures
        selection_set(box_selected(s, points, start, end, scale_factor, vp)) == selection_set(
            s,
        ).union(covered_set(s, points, start, end, scale_factor, vp)),
{
    let after = box_selected(s, points, start, end, scale_factor, vp);
    let joined = selection_set(s).union(covered_set(s, points, start, end, scale_factor, vp));
    assert forall|e: u64| selection_set(after).contains(e) implies joined.contains(e) by {
        let i = choose|i: int| 0 <= i < after.len() && after[i].entity == e && after[i].selected;
        assert(s[i].entity == e);
        if s[i].selected {
            assert(selection_set(s).contains(e));
        } else {
            assert(contains_entity(s, e));
            assert(covered_set(s, points, start, end, scale_factor, vp).contains(e));
        }
    }
    assert forall|e: u64| joined.contains(e) implies selection_set(after).contains(e) by {
        if selection_set(s).contains(e) {
            let i = choose|i: int| 0 <= i < s.len() && s[i].entity == e && s[i].selected;
            assert(after[i].entity == e && after[i].selected);
        } else {
            let i = choose|i: int| 0 <= i < s.len() && s[i].entity == e;
            assert(after[i].entity == e && after[i].selected);
        }
    }
    assert(selection_set(after) =~= joined);
}

/// After a drag shorter than `MIN_DRAG_DISTANCE` nothing is selected.
pub proof fn lemma_short_drag_clears_selection(
    s: Seq<Particle>,
    start: Vec2,
    end: Vec2,
    scale_factor: i64,
    cameras: Seq<CameraView>,
)
    requires
        drag_below_threshold(start, end),
    ensures
        selection_set(committed(s, start, end, scale_factor, cameras)) == Set::<u64>::empty(),
        forall|k: int|
            0 <= k < s.len() ==> !(#[trigger] committed(
                s,
                start,
                end,
                scale_factor,
                cameras,
            )[k]).selected,
{
    let after = committed(s, start, end, scale_factor, cameras);
    assert(after == deselect_all(s));
    assert forall|e: u64| !selection_set(after).contains(e) by {
        if selection_set(after).contains(e) {
            let i = choose|i: int| 0 <= i < after.len() && after[i].entity == e && after[i].selected;
            assert(!after[i].selected);
        }
    }
    assert(selection_set(after) =~= Set::<u64>::empty());
}

/// After a click without any movement (the box ends where it started)
/// nothing is selected.
pub proof fn lemma_click_clears_selection(
    s: Seq<Particle>,
    position: Vec2,
    scale_factor: i64,
    cameras: Seq<CameraView>,
)
    ensures
        selection_set(committed(s, position, position, scale_factor, cameras)) == Set::<
            u64,
        >::empty(),
{
    assert(drag_below_threshold(position, position));
    lemma_short_drag_clears_selection(s, position, position, scale_factor, cameras);
}

fn is_short_drag(start: Vec2, end: Vec2) -> (short: bool)
    ensures
        short == drag_below_threshold(start, end),
{
    let dx: i128 = end.x as i128 - start.x as i128;
    let dy: i128 = end.y as i128 - start.y as i128;
    let limit: i128 = MIN_DRAG_DISTANCE as i128;
    if dx <= -limit || dx >= limit || dy <= -limit || dy >= limit {
        proof {
            assert(dx * dx >= limit * limit || dy * dy >= limit * limit) by (nonlinear_arith)
                requires
                    dx <= -limit || dx >= limit || dy <= -limit || dy >= limit,
                    limit > 0,
            ;
            assert(dx * dx >= 0 && dy * dy >= 0) by (nonlinear_arith);
        }
        false
    } else {
        proof {
            lemma_mul_bound(dx as int, dx as int, limit as int, limit as int);
            lemma_mul_bound(dy as int, dy as int, limit as int, limit as int);
        }
        dx * dx + dy * dy < limit * limit
    }
}

fn min_wide(a: i128, b: i128) -> (r: i128)
    ensures
        r == min_int(a as int, b as int),
{
    if a <= b {
        a
    } else {
        b
    }
}

fn max_wide(a: i128, b: i128) -> (r: i128)
    ensures
        r == max_int(a as int, b as int),
{
    if a >= b {
        a
    } else {
        b
    }
}

fn box_in_viewport(start: Vec2, end: Vec2, scale_factor: i64, vp: Viewport) -> (b: BoxInViewport)
    ensures
        b.left == box_left(start, end, scale_factor, vp),
        b.right == box_right(start, end, scale_factor, vp),
        b.top == box_top(start, end, scale_factor, vp),
        b.bottom == box_bottom(start, end, scale_factor, vp),
        b.left >= 0,
        b.top >= 0,
        b.right <= vp.width * ONE,
        b.bottom <= vp.height * ONE,
{
    let sx: i128 = to_physical(start.x, scale_factor);
    let sy: i128 = to_physical(start.y, scale_factor);
    let ex: i128 = to_physical(end.x, scale_factor);
    let ey: i128 = to_physical(end.y, scale_factor);
    let vx: i128 = vp.x as i128 * ONE as i128;
    let vy: i128 = vp.y as i128 * ONE as i128;
    let vw: i128 = vp.width as i128 * ONE as i128;
    let vh: i128 = vp.height as i128 * ONE as i128;
    BoxInViewport {
        left: max_wide(min_wide(sx, ex) - vx, 0),
        right: min_wide(max_wide(sx, ex) - vx, vw),
        top: max_wide(min_wide(sy, ey) - vy, 0),
        bottom: min_wide(max_wide(sy, ey) - vy, vh),
    }
}

fn is_point_in_box(
    point: NdcPoint,
    b: &BoxInViewport,
    vp: Viewport,
    Ghost(start): Ghost<Vec2>,
    Ghost(end): Ghost<Vec2>,
    Ghost(scale_factor): Ghost<i64>,
) -> (inside: bool)
    requires
        b.left == box_left(start, end, scale_factor, vp),
        b.right == box_right(start, end, scale_factor, vp),
        b.top == box_top(start, end, scale_factor, vp),
        b.bottom == box_bottom(start, end, scale_factor, vp),
        b.left >= 0,
        b.top >= 0,
        b.right <= vp.width * ONE,
        b.bottom <= vp.height * ONE,
    ensures
        inside == point_in_box(point, start, end, scale_factor, vp),
{
    if b.left > b.right || b.top > b.bottom {
        return false;
    }
    proof {
        lemma_mul_bound(
            point.x as int + ONE,
            vp.width as int,
            0x8000_0000_0000_0000 + ONE,
            0x1_0000_0000,
        );
        lemma_mul_bound(
            ONE - point.y as int,
            vp.height as int,
            0x8000_0000_0000_0000 + ONE,
            0x1_0000_0000,
        );
    }
    let x2: i128 = (point.x as i128 + ONE as i128) * (vp.width as i128);
    let y2: i128 = (ONE as i128 - point.y as i128) * (vp.height as i128);
    2 * b.left <= x2 && x2 <= 2 * b.right && 2 * b.top <= y2 && y2 <= 2 * b.bottom
}

fn is_covered(
    entity: u64,
    points: &Vec<NdcPoint>,
    b: &BoxInViewport,
    vp: Viewport,
    Ghost(start): Ghost<Vec2>,
    Ghost(end): Ghost<Vec2>,
    Ghost(scale_factor): Ghost<i64>,
) -> (hit: bool)
    requires
        b.left == box_left(start, end, scale_factor, vp),
        b.right == box_right(start, end, scale_factor, vp),
        b.top == box_top(start, end, scale_factor, vp),
        b.bottom == box_bottom(start, end, scale_factor, vp),
        b.left >= 0,
        b.top >= 0,
        b.right <= vp.width * ONE,
        b.bottom <= vp.height * ONE,
    ensures
        hit == covered(entity, points@, start, end, scale_factor, vp),
{
    let n: usize = points.len();
    let mut j: usize = 0;
    while j < n
        invariant
            n == points@.len(),
            j <= n,
            b.left == box_left(start, end, scale_factor, vp),
            b.right == box_right(start, end, scale_factor, vp),
            b.top == box_top(start, end, scale_factor, vp),
            b.bottom == box_bottom(start, end, scale_factor, vp),
            b.left >= 0,
            b.top >= 0,
            b.right <= vp.width * ONE,
            b.bottom <= vp.height * ONE,
            forall|k: int|
                0 <= k < j ==> !((#[trigger] points@[k]).entity == entity && point_in_box(
                    points@[k],
                    start,
                    end,
                    scale_factor,
                    vp,
                )),
        decreases n - j,
    {
        let point: NdcPoint = points[j];
        if point.entity == entity && is_point_in_box(
            point,
            b,
            vp,
            Ghost(start),
            Ghost(end),
            Ghost(scale_factor),
        ) {
            assert(points@[j as int].entity == entity);
            return true;
        }
        j += 1;
    }
    false
}

/// Takes every particle out of the selection and paints it white.
pub fn clear_selection(world: &mut ParticleWorld)
    requires
        old(world).wf(),
    ensures
        final(world).wf(),
        final(world).next_id() == old(world).next_id(),
        final(world)@ == deselect_all(old(world)@),
{
    let ghost before = world@;
    let n: usize = world.len();
    let mut i: usize = 0;
    while i < n
        invariant
            world.wf(),
            world.next_id() == old(world).next_id(),
            before == old(world)@,
            world@.len() == n,
            before.len() == n,
            i <= n,
            forall|k: int|
                0 <= k < i ==> world@[k] == (Particle {
                    selected: false,
                    material: ParticleMaterial::White,
                    ..before[k]
                }),
            forall|k: int| i <= k < n ==> world@[k] == before[k],
        decreases n - i,
    {
        world.set_selected(i, false, ParticleMaterial::White);
        i += 1;
    }
    assert(world@ =~= deselect_all(before));
}

/// Puts every unselected particle that `points` shows inside the box into
/// the selection, painted purple.
pub fn select_in_box(
    world: &mut ParticleWorld,
    points: &Vec<NdcPoint>,
    start: Vec2,
    end: Vec2,
    scale_factor: i64,
    vp: Viewport,
)
    requires
        old(world).wf(),
    ensures
        final(world).wf(),
        final(world).next_id() == old(world).next_id(),
        final(world)@ == box_selected(old(world)@, points@, start, end, scale_factor, vp),
{
    let b = box_in_viewport(start, end, scale_factor, vp);
    let ghost before = world@;
    let n: usize = world.len();
    let mut i: usize = 0;
    while i < n
        invariant
            world.wf(),
            world.next_id() == old(world).next_id(),
            before == old(world)@,
            world@.len() == n,
            before.len() == n,
            i <= n,
            b.left == box_left(start, end, scale_factor, vp),
            b.right == box_right(start, end, scale_factor, vp),
            b.top == box_top(start, end, scale_factor, vp),
            b.bottom == box_bottom(start, end, scale_factor, vp),
            b.left >= 0,
            b.top >= 0,
            b.right <= vp.width * ONE,
            b.bottom <= vp.height * ONE,
            forall|k: int|
                0 <= k < i ==> world@[k] == box_selected(
                    before,
                    points@,
                    start,
                    end,
                    scale_factor,
                    vp,
                )[k],
            forall|k: int| i <= k < n ==> world@[k] == before[k],
        decreases n - i,
    {
        let p: Particle = world.particle(i);
        if !p.selected && is_covered(
            p.entity,
            points,
            &b,
            vp,
            Ghost(start),
            Ghost(end),
            Ghost(scale_factor),
        ) {
            world.set_selected(i, true, ParticleMaterial::Purple);
        }
        i += 1;
    }
    assert(world@ =~= box_selected(before, points@, start, end, scale_factor, vp));
}

/// Applies a released drag box to the selection, once.
///
/// While the button is held nothing happens. Otherwise the recorded corners
/// are taken out of the state, and if both were there the box is committed:
/// see [`committed`].
pub fn process_selection_box(
    selection_box_state: &mut SelectionBoxState,
    world: &mut ParticleWorld,
    scale_factor: i64,
    cameras: &Vec<CameraView>,
)
    requires
        old(world).wf(),
    ensures
        final(world).wf(),
        final(world).next_id() == old(world).next_id(),
        old(selection_box_state).is_active ==> *final(selection_box_state) == *old(selection_box_state) && final(world)@ == old(world)@,
        !old(selection_box_state).is_active ==> *final(selection_box_state)
            == SelectionBoxState::idle(),
        !old(selection_box_state).is_active ==> final(world)@ == (match (
            old(selection_box_state).start_position,
            old(selection_box_state).current_position,
        ) {
            (Some(start), Some(end)) => committed(old(world)@, start, end, scale_factor, cameras@),
            _ => old(world)@,
        }),
{
    if selection_box_state.is_active {
        return ;
    }
    let start_position = selection_box_state.start_position;
    let current_position = selection_box_state.current_position;
    selection_box_state.start_position = None;
    selection_box_state.current_position = None;
    let (start, end) = match (start_position, current_position) {
        (Some(start), Some(end)) => (start, end),
        _ => { return ; },
    };
    if is_short_drag(start, end) {
        clear_selection(world);
        return ;
    }
    let cx: i64 = midpoint(start.x, end.x);
    let cy: i64 = midpoint(start.y, end.y);
    let px: i128 = to_physical(cx, scale_factor);
    let py: i128 = to_physical(cy, scale_factor);
    let rects = viewports(cameras);
    match find_camera(&rects, px, py, true) {
        Some(c) => {
            match cameras[c].viewport {
                Some(vp) => {
                    select_in_box(world, &cameras[c].points, start, end, scale_factor, vp);
                },
                None => {},
            }
        },
        None => {},
    }
}

/// The cursor, scaled to physical pixels, lies in the viewport of some camera.
pub open spec fn cursor_in_viewport(
    cursor: Vec2,
    scale_factor: i64,
    cameras: Seq<CameraView>,
) -> bool {
    first_camera(
        viewports_of(cameras),
        physical(cursor.x as int, scale_factor as int),
        physical(cursor.y as int, scale_factor as int),
        false,
    ).is_some()
}

/// The gesture after a button press at `cursor`: a press inside a camera's
/// viewport starts a box with both corners at the cursor; a press elsewhere
/// changes nothing.
pub open spec fn after_press(
    state: SelectionBoxState,
    cursor: Vec2,
    scale_factor: i64,
    cameras: Seq<CameraView>,
) -> SelectionBoxState {
    if cursor_in_viewport(cursor, scale_factor, cameras) {
        SelectionBoxState {
            is_active: true,
            start_position: Some(cursor),
            current_position: Some(cursor),
        }
    } else {
        state
    }
}

/// The gesture after a button release: no longer active, corners kept for
/// the commit.
pub open spec fn after_release(state: SelectionBoxState) -> SelectionBoxState {
    SelectionBoxState { is_active: false, ..state }
}

/// Follows the button that drags the box. A press is handled before a
/// release of the same frame. A press while the cursor is outside the window
/// (`cursor` is `None`) ends the pass at once, release included.
pub fn handle_right_mouse_button(
    just_pressed: bool,
    just_released: bool,
    cursor: Option<Vec2>,
    scale_factor: i64,
    cameras: &Vec<CameraView>,
    selection_box_state: &mut SelectionBoxState,
)
    ensures
        just_pressed && cursor.is_none() ==> *final(selection_box_state) == *old(selection_box_state),
        !(just_pressed && cursor.is_none()) ==> *final(selection_box_state) == ({
            let pressed = if just_pressed {
                after_press(*old(selection_box_state), cursor.unwrap(), scale_factor, cameras@)
            } else {
                *old(selection_box_state)
            };
            if just_released {
                after_release(pressed)
            } else {
                pressed
            }
        }),
{
    if just_pressed {
        let cursor_pos = match cursor {
            Some(c) => c,
            None => { return ; },
        };
        let px: i128 = to_physical(cursor_pos.x, scale_factor);
        let py: i128 = to_physical(cursor_pos.y, scale_factor);
        let rects = viewports(cameras);
        if find_camera(&rects, px, py, false).is_some() {
            selection_box_state.is_active = true;
            selection_box_state.start_position = Some(cursor_pos);
            selection_box_state.current_position = Some(cursor_pos);
        }
    }
    if just_released {
        selection_box_state.is_active = false;
    }
}

/// What to do with the rectangle that shows the drag box.
#[derive(Clone, Copy, Debug, PartialEq, Eq, Structural)]
pub enum SelectionBoxVisual {
    /// Leave whatever is shown as it is.
    Keep,
    /// Show the rectangle at this place, in logical pixels.
    Show { left: i64, top: i64, width: u64, height: u64 },
    /// Remove the rectangle.
    Remove,
}

/// The distance between two coordinates.
pub open spec fn span(a: int, b: int) -> int {
    if a <= b {
        b - a
    } else {
        a - b
    }
}

/// The rectangle to show for a box from `start` to `current`: none unless
/// the box is more than `MIN_VISUAL_SIZE` wide and high, so that a click
/// without movement shows nothing.
pub open spec fn visual_for(start: Vec2, current: Vec2) -> SelectionBoxVisual {
    if span(start.x as int, current.x as int) > MIN_VISUAL_SIZE && span(
        start.y as int,
        current.y as int,
    ) > MIN_VISUAL_SIZE {
        SelectionBoxVisual::Show {
            left: min_int(start.x as int, current.x as int) as i64,
            top: min_int(start.y as int, current.y as int) as i64,
            width: span(start.x as int, current.x as int) as u64,
            height: span(start.y as int, current.y as int) as u64,
        }
    } else {
        SelectionBoxVisual::Keep
    }
}

/// While the box is dragged, moves its free corner to the cursor (if the
/// cursor is in the window) and says what rectangle to show; when no box is
/// dragged, says to remove the rectangle.
pub fn update_selection_box_visual(
    cursor: Option<Vec2>,
    selection_box_state: &mut SelectionBoxState,
) -> (visual: SelectionBoxVisual)
    ensures
        !old(selection_box_state).is_active ==> visual == SelectionBoxVisual::Remove && *final(selection_box_state) == *old(selection_box_state),
        old(selection_box_state).is_active ==> {
            &&& final(selection_box_state).is_active
            &&& final(selection_box_state).start_position == old(selection_box_state).start_position
            &&& final(selection_box_state).current_position == (if cursor.is_some() {
                cursor
            } else {
                old(selection_box_state).current_position
            })
            &&& visual == (match (
                final(selection_box_state).start_position,
                final(selection_box_state).current_position,
            ) {
                (Some(start), Some(current)) => visual_for(start, current),
                _ => SelectionBoxVisual::Keep,
            })
        },
{
    if !selection_box_state.is_active {
        return SelectionBoxVisual::Remove;
    }
    if cursor.is_some() {
        selection_box_state.current_position = cursor;
    }
    match (selection_box_state.start_position, selection_box_state.current_position) {
        (Some(start), Some(current)) => {
            let width: u64 = distance(start.x, current.x);
            let height: u64 = distance(start.y, current.y);
            if width > MIN_VISUAL_SIZE as u64 && height > MIN_VISUAL_SIZE as u64 {
                SelectionBoxVisual::Show {
                    left: if start.x <= current.x {
                        start.x
                    } else {
                        current.x
                    },
                    top: if start.y <= current.y {
                        start.y
                    } else {
                        current.y
                    },
                    width,
                    height,
                }
            } else {
                SelectionBoxVisual::Keep
            }
        },
        _ => SelectionBoxVisual::Keep,
    }
}

fn distance(a: i64, b: i64) -> (d: u64)
    ensures
        d == span(a as int, b as int),
{
    let wide: i128 = if a <= b {
        b as i128 - a as i128
    } else {
        a as i128 - b as i128
    };
    wide as u64
}

/// The midpoint of two coordinates, rounded down.
fn midpoint(a: i64, b: i64) -> (m: i64)
    ensures
        m == (a + b) / 2,
{
    let sum: i128 = a as i128 + b as i128;
    let half: i128 = div_floor(sum, 2);
    half as i64
}

} // verus!
