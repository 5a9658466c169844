//! Hex-grid geometry on an exact lattice.
//!
//! Rows are offset: even rows sit half a column step to the left of odd
//! rows. For a tile size `t` the column step is `step_x = t * sqrt(3) / 2`
//! and the row step is `step_y = t * 3 / 4`. Positions are kept exactly,
//! as integers: `x` counts half column steps (`step_x / 2`) and `y` counts
//! quarter tiles (`t / 4`, so one row step is 3). Conversion to pixels
//! multiplies by those two lengths.
//!
//! That is the layout of pointy-topped hexes. Flat-topped hexes use the
//! same lattice with the axes swapped: columns are offset instead of rows,
//! `x` counts quarter tiles and `y` counts half row steps.
use vstd::prelude::*;

verus! {

/// A cell of the grid: column `x`, row `y`.
#[derive(Clone, Copy, Debug, PartialEq, Eq, Structural)]
pub struct GridCoords {
    pub x: u32,
    pub y: u32,
}

/// A position in lattice units: `x` in half column steps, `y` in quarter
/// tiles.
#[derive(Clone, Copy, Debug, PartialEq, Eq, Structural)]
pub struct WorldPoint {
    pub x: i64,
    pub y: i64,
}

/// The horizontal position of cell (`col`, `row`), in half column steps.
pub open spec fn world_x(col: int, row: int) -> int {
    2 * col - if row % 2 == 0 {
        1int
    } else {
        0int
    }
}

/// The vertical position of row `row`, in quarter tiles.
pub open spec fn world_y(row: int) -> int {
    3 * row
}

/// The horizontal position of cell (`col`, `row`) in a grid of the given
/// orientation.
pub open spec fn anchor_x(col: int, row: int, point_up: bool) -> int {
    if point_up {
        world_x(col, row)
    } else {
        world_y(col)
    }
}

/// The vertical position of cell (`col`, `row`) in a grid of the given
/// orientation.
pub open spec fn anchor_y(col: int, row: int, point_up: bool) -> int {
    if point_up {
        world_y(row)
    } else {
        world_x(row, col)
    }
}

/// The position of a cell's anchor.
pub fn grid_to_world(coords: GridCoords, point_up: bool) -> (r: WorldPoint)
    ensures
        r.x == anchor_x(coords.x as int, coords.y as int, point_up),
        r.y == anchor_y(coords.x as int, coords.y as int, point_up),
{
    if point_up {
        let shift: i64 = if coords.y % 2 == 0 {
            1
        } else {
            0
        };
        WorldPoint { x: 2 * (coords.x as i64) - shift, y: 3 * (coords.y as i64) }
    } else {
        let shift: i64 = if coords.x % 2 == 0 {
            1
        } else {
            0
        };
        WorldPoint { x: 3 * (coords.x as i64), y: 2 * (coords.y as i64) - shift }
    }
}

/// Cells of one row are one column step apart; neighbouring rows are
/// shifted against each other by half a column step and lie one row step
/// apart. The position of a cell depends on its coordinates alone.
pub proof fn lemma_hex_layout(col: int, row: int)
    requires
        col >= 0,
        row >= 0,
    ensures
        world_x(col + 1, row) - world_x(col, row) == 2,
        world_x(col, row + 1) - world_x(col, row) == if row % 2 == 0 {
            1int
        } else {
            -1int
        },
        world_y(row + 1) - world_y(row) == 3,
{
}

/// The offset of hex corner `corner` from a cell's anchor, counted
/// clockwise from the top.
pub open spec fn corner_point(corner: u8) -> WorldPoint {
    if corner == 0 {
        WorldPoint { x: 2, y: 4 }
    } else if corner == 1 {
        WorldPoint { x: 4, y: 3 }
    } else if corner == 2 {
        WorldPoint { x: 4, y: 1 }
    } else if corner == 3 {
        WorldPoint { x: 2, y: 0 }
    } else if corner == 4 {
        WorldPoint { x: 0, y: 1 }
    } else {
        WorldPoint { x: 0, y: 3 }
    }
}

/// Corner `corner` in a grid of the given orientation.
pub open spec fn oriented_corner(corner: u8, point_up: bool) -> WorldPoint {
    let c = corner_point(corner);
    if point_up {
        c
    } else {
        WorldPoint { x: c.y, y: c.x }
    }
}

pub fn corner_offset(corner: u8, point_up: bool) -> (r: WorldPoint)
    requires
        corner < 6,
    ensures
        r == oriented_corner(corner, point_up),
{
    let c = match corner {
        0 => WorldPoint { x: 2, y: 4 },
        1 => WorldPoint { x: 4, y: 3 },
        2 => WorldPoint { x: 4, y: 1 },
        3 => WorldPoint { x: 2, y: 0 },
        4 => WorldPoint { x: 0, y: 1 },
        _ => WorldPoint { x: 0, y: 3 },
    };
    if point_up {
        c
    } else {
        WorldPoint { x: c.y, y: c.x }
    }
}

/// The per-cell anchors of a grid of `rows` by `cols`, row by row, each
/// as the pair `x`, `y`.
pub open spec fn grid_offsets(rows: nat, cols: nat, point_up: bool) -> Seq<i32> {
    Seq::new(
        2 * (rows * cols),
        |i: int|
            if i % 2 == 0 {
                anchor_x((i / 2) % cols as int, (i / 2) / cols as int, point_up) as i32
            } else {
                anchor_y((i / 2) % cols as int, (i / 2) / cols as int, point_up) as i32
            },
    )
}

/// The anchors of every cell of a grid with `rows` rows of `cols` cells.
pub fn grid_coords(rows: u32, cols: u32, point_up: bool) -> (r: Vec<i32>)
    requires
        rows * cols * 6 <= i32::MAX,
    ensures
        r@ == grid_offsets(rows as nat, cols as nat, point_up),
{
    let n: usize = (rows as usize) * (cols as usize);
    let mut out: Vec<i32> = Vec::new();
    let mut i: usize = 0;
    while i < n
        invariant
            n == rows * cols,
            rows * cols * 6 <= i32::MAX,
            i <= n,
            out.len() == 2 * i,
            forall|k: int| 0 <= k < 2 * i ==> #[trigger] out@[k] == grid_offsets(rows as nat, cols as nat, point_up)[k],
        decreases n - i,
    {
        assert(cols > 0) by (nonlinear_arith)
            requires
                (i as int) < (rows as int) * (cols as int),
        ;
        let row = i / (cols as usize);
        let col = i % (cols as usize);
        assert(row < rows && col < cols) by (nonlinear_arith)
            requires
                (i as int) < (rows as int) * (cols as int),
                row as int == (i as int) / (cols as int),
                col as int == (i as int) % (cols as int),
                cols > 0,
        ;
        assert(cols * 6 <= i32::MAX && rows * 6 <= i32::MAX) by (nonlinear_arith)
            requires
                rows * cols * 6 <= i32::MAX,
                row < rows,
                col < cols,
        ;
        if point_up {
            let shift: i32 = if row % 2 == 0 {
                1
            } else {
                0
            };
            out.push(2 * (col as i32) - shift);
            out.push(3 * (row as i32));
        } else {
            let shift: i32 = if col % 2 == 0 {
                1
            } else {
                0
            };
            out.push(3 * (col as i32));
            out.push(2 * (row as i32) - shift);
        }
        proof {
            let g = grid_offsets(rows as nat, cols as nat, point_up);
            assert((2 * i) / 2 == i && (2 * i) % 2 == 0);
            assert((2 * i + 1) / 2 == i && (2 * i + 1) % 2 == 1);
            assert(out@[2 * i] == g[2 * i]);
            assert(out@[2 * i + 1] == g[2 * i + 1]);
        }
        i = i + 1;
    }
    assert(out@ =~= grid_offsets(rows as nat, cols as nat, point_up));
    out
}

} // verus!
