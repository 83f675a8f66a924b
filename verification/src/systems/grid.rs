//! The ground grid: which lines make it up.

use vstd::prelude::*;
use crate::components::GridState;
use crate::constants::GRID_SPACING;
use crate::fixed::{HALF, ONE};
use crate::vector::{Axis, Vec3};

verus! {

/// One line of the grid: a segment of `length` along `axis`, centred at
/// `translation` on the ground.
#[derive(Clone, Copy, Debug, PartialEq, Eq, Structural)]
pub struct GridLine {
    pub length: i64,
    pub translation: Vec3,
    pub axis: Axis,
}

/// Number of lines that cross an edge `size` metres long: one per metre
/// and one more; none for a negative size.
pub open spec fn line_count(size: int) -> nat {
    if size + 1 > 0 {
        (size + 1) as nat
    } else {
        0
    }
}

/// Where line `i` crosses an edge `size` metres long and centred on the origin.
pub open spec fn line_position(size: int, i: int) -> int {
    -(size * HALF) + i * GRID_SPACING
}

/// The lines of a grid of `size_x` by `size_z` metres centred on the
/// origin: first the lines along X, from the least `z` to the greatest,
/// then the lines along Z, from the least `x` to the greatest.
pub open spec fn grid_lines(size_x: int, size_z: int) -> Seq<GridLine> {
    Seq::new(
        line_count(size_z),
        |i: int|
            GridLine {
                length: (size_x * ONE) as i64,
                translation: Vec3 { x: 0, y: 0, z: line_position(size_z, i) as i64 },
                axis: Axis::X,
            },
    ) + Seq::new(
        line_count(size_x),
        |i: int|
            GridLine {
                length: (size_z * ONE) as i64,
                translation: Vec3 { x: line_position(size_x, i) as i64, y: 0, z: 0 },
                axis: Axis::Z,
            },
    )
}

/// Lays out the lines of a grid of `size_x` by `size_z` metres.
pub fn layout_grid(size_x: i32, size_z: i32) -> (lines: Vec<GridLine>)
    ensures
        lines@ == grid_lines(size_x as int, size_z as int),
{
    let length_x: i64 = size_x as i64 * ONE;
    let length_z: i64 = size_z as i64 * ONE;
    let count_z: i64 = size_z as i64 + 1;
    let count_x: i64 = size_x as i64 + 1;
    let mut lines: Vec<GridLine> = Vec::new();
    let mut i: i64 = 0;
    while i < count_z
        invariant
            0 <= i,
            i <= count_z || i == 0,
            count_z == size_z + 1,
            length_x == size_x * ONE,
            lines@.len() == i,
            forall|k: int|
                0 <= k < i ==> lines@[k] == grid_lines(size_x as int, size_z as int)[k],
        decreases count_z - i,
    {
        let z: i64 = -(size_z as i64 * HALF) + i * GRID_SPACING;
        lines.push(
            GridLine { length: length_x, translation: Vec3 { x: 0, y: 0, z }, axis: Axis::X },
        );
        i += 1;
    }
    let ghost first = lines@.len() as int;
    assert(first == line_count(size_z as int));
    let mut j: i64 = 0;
    while j < count_x
        invariant
            0 <= j,
            j <= count_x || j == 0,
            count_x == size_x + 1,
            length_z == size_z * ONE,
            first == line_count(size_z as int),
            lines@.len() == first + j,
            forall|k: int|
                0 <= k < first + j ==> lines@[k] == grid_lines(size_x as int, size_z as int)[k],
        decreases count_x - j,
    {
        let x: i64 = -(size_x as i64 * HALF) + j * GRID_SPACING;
        lines.push(
            GridLine { length: length_z, translation: Vec3 { x, y: 0, z: 0 }, axis: Axis::Z },
        );
        j += 1;
    }
    assert(lines@ =~= grid_lines(size_x as int, size_z as int));
    lines
}

/// When the size of the grid changed since the last call, records the new
/// size and returns the lines that replace the old ones; otherwise returns
/// `None` and the lines drawn stay.
pub fn update_grid_dimensions(grid_state: &mut GridState) -> (lines: Option<Vec<GridLine>>)
    ensures
        *final(grid_state) == (GridState {
            previous_size_x: old(grid_state).size_x,
            previous_size_z: old(grid_state).size_z,
            ..*old(grid_state)
        }),
        old(grid_state).changed() ==> lines.is_some() && lines.unwrap()@ == grid_lines(
            old(grid_state).size_x as int,
            old(grid_state).size_z as int,
        ),
        !old(grid_state).changed() ==> lines.is_none(),
{
    if grid_state.size_x != grid_state.previous_size_x || grid_state.size_z
        != grid_state.previous_size_z {
        grid_state.previous_size_x = grid_state.size_x;
        grid_state.previous_size_z = grid_state.size_z;
        Some(layout_grid(grid_state.size_x, grid_state.size_z))
    } else {
        None
    }
}

} // verus!
