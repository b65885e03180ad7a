//! Directions, grid coordinates and the distance and range rules the robot
//! uses to move around the world.
use vstd::prelude::*;

verus! {

/// A cell of the world grid, as `(row, column)`.
pub type Coord = (usize, usize);

/// One of the four directions the robot can move in.
#[derive(Clone, Copy, Debug, PartialEq, Eq, Structural)]
pub enum Direction {
    Up,
    Right,
    Down,
    Left,
}

/// The direction that points the other way.
pub open spec fn spec_opposite(dir: Direction) -> Direction {
    match dir {
        Direction::Up => Direction::Down,
        Direction::Down => Direction::Up,
        Direction::Left => Direction::Right,
        Direction::Right => Direction::Left,
    }
}

/// Two directions are perpendicular when neither equals the other nor its opposite.
pub open spec fn perpendicular(a: Direction, b: Direction) -> bool {
    a != b && a != spec_opposite(b)
}

/// The direction that points the other way.
pub fn opposite_direction(dir: &Direction) -> (res: Direction)
    ensures
        res == spec_opposite(*dir),
{
    match dir {
        Direction::Up => Direction::Down,
        Direction::Down => Direction::Up,
        Direction::Left => Direction::Right,
        Direction::Right => Direction::Left,
    }
}

/// Moving one cell from `p` towards `dir` stays on the `usize` grid.
pub open spec fn step_ok(p: Coord, dir: Direction) -> bool {
    match dir {
        Direction::Up => p.0 > 0,
        Direction::Down => p.0 < usize::MAX,
        Direction::Left => p.1 > 0,
        Direction::Right => p.1 < usize::MAX,
    }
}

/// The cell next to `p` towards `dir`: up and down change the row, left and
/// right the column.
pub open spec fn neighbor(p: Coord, dir: Direction) -> Coord
    recommends
        step_ok(p, dir),
{
    match dir {
        Direction::Up => ((p.0 - 1) as usize, p.1),
        Direction::Down => ((p.0 + 1) as usize, p.1),
        Direction::Left => (p.0, (p.1 - 1) as usize),
        Direction::Right => (p.0, (p.1 + 1) as usize),
    }
}

/// The coordinate of the cell next to the robot's position `(row, col)` in the
/// given direction.
pub fn get_coords_row_col(robot_row: usize, robot_col: usize, direction: &Direction) -> (res: Coord)
    requires
        step_ok((robot_row, robot_col), *direction),
    ensures
        res == neighbor((robot_row, robot_col), *direction),
{
    match direction {
        Direction::Up => (robot_row - 1, robot_col),
        Direction::Down => (robot_row + 1, robot_col),
        Direction::Left => (robot_row, robot_col - 1),
        Direction::Right => (robot_row, robot_col + 1),
    }
}

pub open spec fn abs_diff(a: usize, b: usize) -> nat {
    if a >= b {
        (a - b) as nat
    } else {
        (b - a) as nat
    }
}

/// The Manhattan (grid) distance between two cells.
pub open spec fn spec_manhattan(p1: Coord, p2: Coord) -> nat {
    abs_diff(p1.0, p2.0) + abs_diff(p1.1, p2.1)
}

/// The Manhattan distance between two cells.
pub fn manhattan_distance(p1: Coord, p2: Coord) -> (res: usize)
    requires
        spec_manhattan(p1, p2) <= usize::MAX,
    ensures
        res == spec_manhattan(p1, p2),
{
    let d0: usize = if p1.0 >= p2.0 { p1.0 - p2.0 } else { p2.0 - p1.0 };
    let d1: usize = if p1.1 >= p2.1 { p1.1 - p2.1 } else { p2.1 - p1.1 };
    d0 + d1
}

pub open spec fn min_int(a: int, b: int) -> int {
    if a <= b { a } else { b }
}

/// The square of half-width `range` around `center` does not fit in a world of
/// side `world_size`.
pub open spec fn range_exceeds(range: usize, center: Coord, world_size: usize) -> bool {
    ||| center.0 < range
    ||| center.0 + range > world_size
    ||| center.1 < range
    ||| center.1 + range > world_size
}

/// The largest half-width that keeps a square around `center` inside the world.
pub open spec fn fitting_range(center: Coord, world_size: usize) -> int {
    min_int(
        min_int(center.0 as int, world_size - center.0),
        min_int(center.1 as int, world_size - center.1),
    )
}

/// Keeps `range` when the square of that half-width around `center` lies inside
/// the world, and otherwise shrinks it to the largest half-width that does.
pub fn check_range(range: &mut usize, center: Coord, world_size: usize)
    requires
        center.0 <= world_size,
        center.1 <= world_size,
    ensures
        *final(range) == if range_exceeds(*old(range), center, world_size) {
            fitting_range(center, world_size)
        } else {
            *old(range) as int
        },
{
    if center.0 < *range || *range > world_size - center.0 || center.1 < *range || *range
        > world_size - center.1 {
        let a: usize = if center.0 <= world_size - center.0 {
            center.0
        } else {
            world_size - center.0
        };
        let b: usize = if center.1 <= world_size - center.1 {
            center.1
        } else {
            world_size - center.1
        };
        *range = if a <= b {
            a
        } else {
            b
        };
    }
}

/// Shrinking a range that does not fit: a half-width of 5 around `(1, 3)` in a
/// world of side 5 becomes the distance to the nearest border.
pub fn check_range_test_invalid_range() {
    let mut range: usize = 5;
    let center: Coord = (1, 3);
    let world_size: usize = 5;
    check_range(&mut range, center, world_size);
    assert(range == fitting_range(center, world_size));
    assert(range == 1);
}


/// Turning around twice faces the starting direction, and turning around never
/// keeps the direction.
pub proof fn lemma_opposite_involution(dir: Direction)
    ensures
        spec_opposite(spec_opposite(dir)) == dir,
        spec_opposite(dir) != dir,
{
}

/// A step followed by a step in the opposite direction returns to the start.
pub proof fn lemma_step_back(p: Coord, dir: Direction)
    requires
        step_ok(p, dir),
    ensures
        step_ok(neighbor(p, dir), spec_opposite(dir)),
        neighbor(neighbor(p, dir), spec_opposite(dir)) == p,
{
}

/// The Manhattan distance is symmetric, zero exactly between equal cells, and
/// one between a cell and its neighbour.
pub proof fn lemma_manhattan_basics(p: Coord, q: Coord, dir: Direction)
    ensures
        spec_manhattan(p, q) == spec_manhattan(q, p),
        spec_manhattan(p, q) == 0 <==> p == q,
        step_ok(p, dir) ==> spec_manhattan(p, neighbor(p, dir)) == 1,
{
}

/// After `check_range` the square around `center` lies inside the world, and a
/// second call leaves the range as it is.
pub proof fn lemma_check_range_fits(range: usize, center: Coord, world_size: usize)
    requires
        center.0 <= world_size,
        center.1 <= world_size,
    ensures
        ({
            let r = if range_exceeds(range, center, world_size) {
                fitting_range(center, world_size)
            } else {
                range as int
            };
            &&& 0 <= r <= range
            &&& r <= center.0 && center.0 + r <= world_size
            &&& r <= center.1 && center.1 + r <= world_size
            &&& !range_exceeds(r as usize, center, world_size)
        }),
{
}


/// The cells `(i, j)` with `lo1 <= j < hi1` of row `i`, left to right.
pub open spec fn row_coords(i: usize, lo1: usize, hi1: usize) -> Seq<Coord> {
    let n: nat = if hi1 > lo1 {
        (hi1 - lo1) as nat
    } else {
        0
    };
    Seq::new(n, |j: int| (i, (lo1 + j) as usize))
}

/// The cells with `lo0 <= row < hi0` and `lo1 <= col < hi1`, row by row.
pub open spec fn square_coords(lo0: usize, hi0: usize, lo1: usize, hi1: usize) -> Seq<Coord>
    decreases hi0 - lo0,
{
    if hi0 <= lo0 {
        seq![]
    } else {
        square_coords(lo0, (hi0 - 1) as usize, lo1, hi1) + row_coords((hi0 - 1) as usize, lo1, hi1)
    }
}

/// A cell is listed by `square_coords` exactly when it lies in the rectangle.
pub proof fn lemma_square_coords_member(lo0: usize, hi0: usize, lo1: usize, hi1: usize, c: Coord)
    ensures
        square_coords(lo0, hi0, lo1, hi1).contains(c) <==> (lo0 <= c.0 < hi0 && lo1 <= c.1 < hi1),
    decreases hi0 - lo0,
{
    if hi0 > lo0 {
        let prev = square_coords(lo0, (hi0 - 1) as usize, lo1, hi1);
        let row = row_coords((hi0 - 1) as usize, lo1, hi1);
        lemma_square_coords_member(lo0, (hi0 - 1) as usize, lo1, hi1, c);
        if square_coords(lo0, hi0, lo1, hi1).contains(c) {
            let k = choose|k: int| 0 <= k < (prev + row).len() && (prev + row)[k] == c;
            if k >= prev.len() {
                assert(row[k - prev.len()] == c);
            } else {
                assert(prev[k] == c);
            }
        }
        if lo0 <= c.0 < hi0 && lo1 <= c.1 < hi1 {
            if c.0 == hi0 - 1 {
                let j = c.1 - lo1;
                assert(row[j] == c);
                assert((prev + row)[prev.len() + j] == c);
            } else {
                let k = choose|k: int| 0 <= k < prev.len() && prev[k] == c;
                assert((prev + row)[k] == c);
            }
        }
    }
}

/// The cells with `lo0 <= row < hi0` and `lo1 <= col < hi1`, row by row.
pub fn square(lo0: usize, hi0: usize, lo1: usize, hi1: usize) -> (res: Vec<Coord>)
    ensures
        res@ == square_coords(lo0, hi0, lo1, hi1),
{
    let mut res: Vec<Coord> = Vec::new();
    let mut i: usize = lo0;
    while i < hi0
        invariant
            lo0 <= i <= if hi0 > lo0 { hi0 } else { lo0 },
            res@ == square_coords(lo0, i, lo1, hi1),
        decreases hi0 - i,
    {
        let mut j: usize = lo1;
        let ghost before = res@;
        while j < hi1
            invariant
                lo0 <= i < hi0,
                lo1 <= j <= if hi1 > lo1 { hi1 } else { lo1 },
                before == square_coords(lo0, i, lo1, hi1),
                res@ == before + row_coords(i, lo1, hi1).take(j - lo1),
            decreases hi1 - j,
        {
            res.push((i, j));
            assert(row_coords(i, lo1, hi1).take(j + 1 - lo1) =~= row_coords(i, lo1, hi1).take(
                j - lo1,
            ).push((i, j)));
            j = j + 1;
        }
        if lo1 < hi1 {
            assert(row_coords(i, lo1, hi1).take(j - lo1) =~= row_coords(i, lo1, hi1));
        } else {
            assert(row_coords(i, lo1, hi1).take(j - lo1) =~= row_coords(i, lo1, hi1));
        }
        assert(res@ =~= before + row_coords(i, lo1, hi1));
        assert(square_coords(lo0, (i + 1) as usize, lo1, hi1) == square_coords(lo0, i, lo1, hi1)
            + row_coords(i, lo1, hi1));
        assert(res@ == square_coords(lo0, (i + 1) as usize, lo1, hi1));
        i = i + 1;
    }
    if hi0 <= lo0 {
        assert(square_coords(lo0, hi0, lo1, hi1) =~= seq![]);
        assert(square_coords(lo0, lo0, lo1, hi1) =~= seq![]);
    }
    res
}


/// `square_coords` lists each cell once.
pub proof fn lemma_square_coords_distinct(lo0: usize, hi0: usize, lo1: usize, hi1: usize)
    ensures
        square_coords(lo0, hi0, lo1, hi1).no_duplicates(),
    decreases hi0 - lo0,
{
    if hi0 > lo0 {
        let prev = square_coords(lo0, (hi0 - 1) as usize, lo1, hi1);
        let row = row_coords((hi0 - 1) as usize, lo1, hi1);
        lemma_square_coords_distinct(lo0, (hi0 - 1) as usize, lo1, hi1);
        let all = prev + row;
        assert forall|a: int, b: int| 0 <= a < all.len() && 0 <= b < all.len() && a != b implies all[a] != all[b] by {
            if a < prev.len() && b < prev.len() {
                assert(prev[a] != prev[b]);
            } else if a >= prev.len() && b >= prev.len() {
            } else if a < prev.len() {
                lemma_square_coords_member(lo0, (hi0 - 1) as usize, lo1, hi1, prev[a]);
                assert(prev.contains(prev[a]));
            } else {
                lemma_square_coords_member(lo0, (hi0 - 1) as usize, lo1, hi1, prev[b]);
                assert(prev.contains(prev[b]));
            }
        }
    }
}

} // verus!
