//! Border matching: locating and tracing the boundary between two terrain
//! levels in a finished height grid, for seamless mesh stitching.
//!
//! The matcher scans the grid row-major for a seed: the first cell of the
//! border level that touches the other level. From the seed it walks along
//! the border, probing the four cardinal neighbors in a fixed clockwise
//! order and moving to the first unvisited border cell, until it either
//! closes a loop back at the seed or runs out of border to follow. Each
//! emitted vertex carries a pair of raw pseudo-random draws meant to perturb
//! the seam's mesh vertices; the draws come from a generator seeded from
//! both axes of the seed point, so identical grids give identical seams.

use vstd::prelude::*;

use crate::height_map::{lemma_row_major_index_in_range, HeightMap, WorldLevel};

verus! {

/// Is (x, y) a cell of a square grid of the given side length?
pub open spec fn in_grid(side: int, x: int, y: int) -> bool {
    0 <= x < side && 0 <= y < side
}

/// Does (x, y) have a 4-connected neighbor (bounds-checked) at level `lv`?
pub open spec fn has_neighbor_at_level(grid: HeightMap, lv: WorldLevel, x: int, y: int) -> bool {
    ||| (x > 0 && grid.level_at(x - 1, y) == lv)
    ||| (x + 1 < grid.side_spec() && grid.level_at(x + 1, y) == lv)
    ||| (y > 0 && grid.level_at(x, y - 1) == lv)
    ||| (y + 1 < grid.side_spec() && grid.level_at(x, y + 1) == lv)
}

/// A border cell for the pair (a, b): a cell of level `a` with at least one
/// 4-connected neighbor of level `b`.
pub open spec fn is_border_cell(
    grid: HeightMap,
    a: WorldLevel,
    b: WorldLevel,
    x: int,
    y: int,
) -> bool {
    &&& in_grid(grid.side_spec(), x, y)
    &&& grid.level_at(x, y) == a
    &&& has_neighbor_at_level(grid, b, x, y)
}

/// Row-major order: does (x1, y1) come strictly before (x2, y2)?
pub open spec fn row_major_earlier(x1: int, y1: int, x2: int, y2: int) -> bool {
    x1 < x2 || (x1 == x2 && y1 < y2)
}

/// Read whether (x, y) is a border cell for the pair (a, b).
fn border_cell_at(
    height_map: &HeightMap,
    a: WorldLevel,
    b: WorldLevel,
    x: usize,
    y: usize,
) -> (found: bool)
    requires
        height_map.wf(),
        x < height_map.side_spec(),
        y < height_map.side_spec(),
    ensures
        found == is_border_cell(*height_map, a, b, x as int, y as int),
{
    let side = height_map.side();
    if height_map.get(x, y) != a {
        return false;
    }
    if x > 0 && height_map.get(x - 1, y) == b {
        return true;
    }
    if x + 1 < side && height_map.get(x + 1, y) == b {
        return true;
    }
    if y > 0 && height_map.get(x, y - 1) == b {
        return true;
    }
    if y + 1 < side && height_map.get(x, y + 1) == b {
        return true;
    }
    false
}

/// Row-major seed search: find the first cell of level `target_level` that
/// touches a cell of level `find_difference_with`. Returns the first border
/// cell in row-major order, or nothing when the two levels share no border
/// anywhere in the grid — the normal "no shared border" case, not an error.
pub fn find_border_seed(
    height_map: &HeightMap,
    target_level: WorldLevel,
    find_difference_with: WorldLevel,
) -> (seed: Option<(usize, usize)>)
    requires
        height_map.wf(),
    ensures
        match seed {
            Some(p) => {
                &&& is_border_cell(
                    *height_map,
                    target_level,
                    find_difference_with,
                    p.0 as int,
                    p.1 as int,
                )
                &&& forall|x: int, y: int|
                    row_major_earlier(x, y, p.0 as int, p.1 as int) ==> !is_border_cell(
                        *height_map,
                        target_level,
                        find_difference_with,
                        x,
                        y,
                    )
            },
            None => forall|x: int, y: int|
                !is_border_cell(*height_map, target_level, find_difference_with, x, y),
        },
{
    let side = height_map.side();
    let mut x: usize = 0;
    while x < side
        invariant
            height_map.wf(),
            side == height_map.side_spec(),
            x <= side,
            forall|i: int, j: int|
                i < x ==> !is_border_cell(*height_map, target_level, find_difference_with, i, j),
        decreases side - x,
    {
        let mut y: usize = 0;
        while y < side
            invariant
                height_map.wf(),
                side == height_map.side_spec(),
                x < side,
                y <= side,
                forall|i: int, j: int|
                    i < x ==> !is_border_cell(
                        *height_map,
                        target_level,
                        find_difference_with,
                        i,
                        j,
                    ),
                forall|j: int|
                    j < y ==> !is_border_cell(
                        *height_map,
                        target_level,
                        find_difference_with,
                        x as int,
                        j,
                    ),
            decreases side - y,
        {
            if border_cell_at(height_map, target_level, find_difference_with, x, y) {
                return Some((x, y));
            }
            y = y + 1;
        }
        x = x + 1;
    }
    None
}

/// Has the walk already visited (x, y)?
pub open spec fn visited_contains(visited: Seq<(usize, usize)>, x: int, y: int) -> bool {
    exists|k: int| 0 <= k < visited.len() && (#[trigger] visited[k]).0 == x && visited[k].1 == y
}

/// A cell the walk may move to: a border cell for (a, b) not yet visited.
pub open spec fn unvisited_border_cell(
    grid: HeightMap,
    a: WorldLevel,
    b: WorldLevel,
    visited: Seq<(usize, usize)>,
    x: int,
    y: int,
) -> bool {
    &&& is_border_cell(grid, a, b, x, y)
    &&& !visited_contains(visited, x, y)
}

/// One step of the border walk from (cx, cy): the first unvisited border
/// cell among the four cardinal neighbors, probed in the fixed clockwise
/// order up, right, down, left.
pub open spec fn next_step_spec(
    grid: HeightMap,
    a: WorldLevel,
    b: WorldLevel,
    visited: Seq<(usize, usize)>,
    cx: int,
    cy: int,
) -> Option<(usize, usize)> {
    if unvisited_border_cell(grid, a, b, visited, cx, cy + 1) {
        Some((cx as usize, (cy + 1) as usize))
    } else if unvisited_border_cell(grid, a, b, visited, cx + 1, cy) {
        Some(((cx + 1) as usize, cy as usize))
    } else if unvisited_border_cell(grid, a, b, visited, cx, cy - 1) {
        Some((cx as usize, (cy - 1) as usize))
    } else if unvisited_border_cell(grid, a, b, visited, cx - 1, cy) {
        Some(((cx - 1) as usize, cy as usize))
    } else {
        None
    }
}

/// Scan the walked path for a position.
fn contains_pos(path: &Vec<(usize, usize)>, x: usize, y: usize) -> (found: bool)
    ensures
        found == visited_contains(path@, x as int, y as int),
{
    let mut k: usize = 0;
    while k < path.len()
        invariant
            k <= path@.len(),
            forall|j: int| 0 <= j < k ==> !((#[trigger] path@[j]).0 == x && path@[j].1 == y),
        decreases path@.len() - k,
    {
        if path[k].0 == x && path[k].1 == y {
            return true;
        }
        k = k + 1;
    }
    false
}

/// Is (x, y) an unvisited border cell, with (x, y) known to be in the grid?
fn step_candidate_ok(
    height_map: &HeightMap,
    a: WorldLevel,
    b: WorldLevel,
    path: &Vec<(usize, usize)>,
    x: usize,
    y: usize,
) -> (ok: bool)
    requires
        height_map.wf(),
        x < height_map.side_spec(),
        y < height_map.side_spec(),
    ensures
        ok == unvisited_border_cell(*height_map, a, b, path@, x as int, y as int),
{
    border_cell_at(height_map, a, b, x, y) && !contains_pos(path, x, y)
}

/// Probe the four cardinal neighbors of (cx, cy) in clockwise order and
/// return the first unvisited border cell among them, if any.
fn probe_next(
    height_map: &HeightMap,
    a: WorldLevel,
    b: WorldLevel,
    path: &Vec<(usize, usize)>,
    cx: usize,
    cy: usize,
) -> (next: Option<(usize, usize)>)
    requires
        height_map.wf(),
        cx < height_map.side_spec(),
        cy < height_map.side_spec(),
    ensures
        next == next_step_spec(*height_map, a, b, path@, cx as int, cy as int),
        next is Some ==> {
            let p = next->Some_0;
            &&& unvisited_border_cell(*height_map, a, b, path@, p.0 as int, p.1 as int)
            &&& cells_adjacent((cx, cy), p)
        },
{
    let side = height_map.side();
    if cy + 1 < side && step_candidate_ok(height_map, a, b, path, cx, cy + 1) {
        Some((cx, cy + 1))
    } else if cx + 1 < side && step_candidate_ok(height_map, a, b, path, cx + 1, cy) {
        Some((cx + 1, cy))
    } else if cy > 0 && step_candidate_ok(height_map, a, b, path, cx, cy - 1) {
        Some((cx, cy - 1))
    } else if cx > 0 && step_candidate_ok(height_map, a, b, path, cx - 1, cy) {
        Some((cx - 1, cy))
    } else {
        None
    }
}

/// Are two cells 4-connected neighbors of one another?
pub open spec fn cells_adjacent(p: (usize, usize), q: (usize, usize)) -> bool {
    let dx = p.0 as int - q.0 as int;
    let dy = p.1 as int - q.1 as int;
    (dx == 0 && (dy == 1 || dy == -1)) || (dy == 0 && (dx == 1 || dx == -1))
}

/// Two row-major positions in a square grid coincide exactly when their
/// row-major indices do.
proof fn lemma_row_major_injective(side: int, r1: int, c1: int, r2: int, c2: int)
    requires
        0 <= r1 < side,
        0 <= c1 < side,
        0 <= r2 < side,
        0 <= c2 < side,
        r1 * side + c1 == r2 * side + c2,
    ensures
        r1 == r2 && c1 == c2,
{
    assert(r1 == r2 && c1 == c2) by (nonlinear_arith)
        requires
            0 <= r1 < side,
            0 <= c1 < side,
            0 <= r2 < side,
            0 <= c2 < side,
            r1 * side + c1 == r2 * side + c2,
    ;
}

/// A sequence of distinct cells of a square grid is no longer than the
/// grid's area.
pub proof fn lemma_distinct_grid_positions_bound(path: Seq<(usize, usize)>, side: int)
    requires
        path.no_duplicates(),
        forall|i: int|
            0 <= i < path.len() ==> in_grid(side, (#[trigger] path[i]).0 as int, path[i].1 as int),
    ensures
        path.len() <= side * side,
{
    let indices = path.map_values(|p: (usize, usize)| p.0 * side + p.1);
    assert(indices.len() == path.len());
    assert(indices.no_duplicates()) by {
        assert forall|i: int, j: int|
            0 <= i < indices.len() && 0 <= j < indices.len() && i != j implies indices[i]
            != indices[j] by {
            if indices[i] == indices[j] {
                lemma_row_major_injective(
                    side,
                    path[i].0 as int,
                    path[i].1 as int,
                    path[j].0 as int,
                    path[j].1 as int,
                );
            }
        }
    }
    indices.unique_seq_to_set();
    assert(side * side >= 0) by (nonlinear_arith);
    vstd::set_lib::lemma_int_range(0, side * side);
    assert(indices.to_set().subset_of(vstd::set_lib::set_int_range(0, side * side))) by {
        assert forall|e: int| indices.to_set().contains(e) implies vstd::set_lib::set_int_range(
            0,
            side * side,
        ).contains(e) by {
            let i = choose|i: int| 0 <= i < indices.len() && indices[i] == e;
            lemma_row_major_index_in_range(side, path[i].0 as int, path[i].1 as int);
        }
    }
    vstd::set_lib::lemma_len_subset(
        indices.to_set(),
        vstd::set_lib::set_int_range(0, side * side),
    );
}

/// Is every in-grid 4-connected neighbor of (x, y) at level `lv`? A border
/// cell with this property is a single-cell inclusion: its whole boundary is
/// the other level.
pub open spec fn fully_enclosed(grid: HeightMap, lv: WorldLevel, x: int, y: int) -> bool {
    &&& (x > 0 ==> grid.level_at(x - 1, y) == lv)
    &&& (x + 1 < grid.side_spec() ==> grid.level_at(x + 1, y) == lv)
    &&& (y > 0 ==> grid.level_at(x, y - 1) == lv)
    &&& (y + 1 < grid.side_spec() ==> grid.level_at(x, y + 1) == lv)
}

/// When a finished walk counts as a closed loop: a single-cell inclusion
/// whose every neighbor is the other level, or a path of at least three
/// cells whose end touches its seed again. Anything else is an open path,
/// typically ending against the chunk edge.
pub open spec fn path_is_closed(
    grid: HeightMap,
    b: WorldLevel,
    path: Seq<(usize, usize)>,
) -> bool {
    if path.len() == 1 {
        fully_enclosed(grid, b, path[0].0 as int, path[0].1 as int)
    } else if path.len() >= 3 {
        cells_adjacent(path.last(), path[0])
    } else {
        false
    }
}

/// Everything the border walk promises of its result. The path is empty
/// exactly when the grid has no border cell for the pair at all. Otherwise
/// it starts at the row-major-first border cell, visits only border cells,
/// never repeats a cell, takes each step to the first unvisited border cell
/// in clockwise probe order, moves only between 4-connected neighbors, and
/// stops only once no step remained. The closed flag holds exactly when the
/// walk closed a loop.
pub open spec fn border_path_ok(
    grid: HeightMap,
    a: WorldLevel,
    b: WorldLevel,
    path: Seq<(usize, usize)>,
    closed: bool,
) -> bool {
    &&& (path.len() == 0 <==> (forall|x: int, y: int| !is_border_cell(grid, a, b, x, y)))
    &&& (path.len() > 0 ==> is_border_cell(grid, a, b, path[0].0 as int, path[0].1 as int))
    &&& (path.len() > 0 ==> forall|x: int, y: int|
        row_major_earlier(x, y, path[0].0 as int, path[0].1 as int) ==> !is_border_cell(
            grid,
            a,
            b,
            x,
            y,
        ))
    &&& forall|i: int|
        0 <= i < path.len() ==> is_border_cell(
            grid,
            a,
            b,
            (#[trigger] path[i]).0 as int,
            path[i].1 as int,
        )
    &&& path.no_duplicates()
    &&& forall|i: int|
        0 <= i < path.len() - 1 ==> #[trigger] next_step_spec(
            grid,
            a,
            b,
            path.take(i + 1),
            path[i].0 as int,
            path[i].1 as int,
        ) == Some(path[i + 1])
    &&& forall|i: int| 0 <= i < path.len() - 1 ==> cells_adjacent(#[trigger] path[i], path[i + 1])
    &&& (path.len() > 0 ==> next_step_spec(
        grid,
        a,
        b,
        path,
        path.last().0 as int,
        path.last().1 as int,
    ) is None)
    &&& closed == path_is_closed(grid, b, path)
}

/// Read whether every in-grid neighbor of (x, y) is at level `lv`.
fn fully_enclosed_at(height_map: &HeightMap, lv: WorldLevel, x: usize, y: usize) -> (enclosed:
    bool)
    requires
        height_map.wf(),
        x < height_map.side_spec(),
        y < height_map.side_spec(),
    ensures
        enclosed == fully_enclosed(*height_map, lv, x as int, y as int),
{
    let side = height_map.side();
    (x == 0 || height_map.get(x - 1, y) == lv) && (x + 1 >= side || height_map.get(x + 1, y) == lv)
        && (y == 0 || height_map.get(x, y - 1) == lv) && (y + 1 >= side || height_map.get(
        x,
        y + 1,
    ) == lv)
}

/// Walk the border between `target_level` and `find_difference_with` in the
/// grid: locate the row-major-first seed and follow the border from it,
/// always stepping to the first unvisited border cell in clockwise probe
/// order, until a loop closes or no border remains. Returns the ordered
/// walked cells and whether they form a closed loop.
pub fn trace_border(
    height_map: &HeightMap,
    target_level: WorldLevel,
    find_difference_with: WorldLevel,
) -> (result: (Vec<(usize, usize)>, bool))
    requires
        height_map.wf(),
    ensures
        border_path_ok(*height_map, target_level, find_difference_with, result.0@, result.1),
{
    let mut path: Vec<(usize, usize)> = Vec::new();
    let seed = match find_border_seed(height_map, target_level, find_difference_with) {
        Some(p) => p,
        None => {
            return (path, false);
        },
    };
    path.push(seed);
    let ghost grid = *height_map;
    let ghost a = target_level;
    let ghost b = find_difference_with;
    let side = height_map.side();
    proof {
        assert(path@.take(1) =~= path@);
        assert(1 <= side * side) by (nonlinear_arith)
            requires
                1 <= side,
        ;
    }
    loop
        invariant
            height_map.wf(),
            grid == *height_map,
            a == target_level,
            b == find_difference_with,
            side == grid.side_spec(),
            1 <= path@.len() <= side * side,
            path@[0] == seed,
            is_border_cell(grid, a, b, seed.0 as int, seed.1 as int),
            forall|x: int, y: int|
                row_major_earlier(x, y, seed.0 as int, seed.1 as int) ==> !is_border_cell(
                    grid,
                    a,
                    b,
                    x,
                    y,
                ),
            forall|i: int|
                0 <= i < path@.len() ==> is_border_cell(
                    grid,
                    a,
                    b,
                    (#[trigger] path@[i]).0 as int,
                    path@[i].1 as int,
                ),
            path@.no_duplicates(),
            forall|i: int|
                0 <= i < path@.len() - 1 ==> #[trigger] next_step_spec(
                    grid,
                    a,
                    b,
                    path@.take(i + 1),
                    path@[i].0 as int,
                    path@[i].1 as int,
                ) == Some(path@[i + 1]),
            forall|i: int|
                0 <= i < path@.len() - 1 ==> cells_adjacent(#[trigger] path@[i], path@[i + 1]),
        decreases side * side - path@.len(),
    {
        let cur = path[path.len() - 1];
        let next = probe_next(height_map, target_level, find_difference_with, &path, cur.0, cur.1);
        match next {
            Some(p) => {
                let ghost before = path@;
                path.push(p);
                proof {
                    assert(path@.take(path@.len() - 1) =~= before);
                    assert(path@.no_duplicates()) by {
                        assert(!visited_contains(before, p.0 as int, p.1 as int));
                        assert forall|i: int, j: int|
                            0 <= i < path@.len() && 0 <= j < path@.len() && i != j implies path@[i]
                            != path@[j] by {
                            if j == path@.len() - 1 && i < j {
                                assert(before[i] == path@[i]);
                            }
                            if i == path@.len() - 1 && j < i {
                                assert(before[j] == path@[j]);
                            }
                        }
                    }
                    assert forall|i: int| 0 <= i < path@.len() implies in_grid(
                        side as int,
                        (#[trigger] path@[i]).0 as int,
                        path@[i].1 as int,
                    ) by {}
                    lemma_distinct_grid_positions_bound(path@, side as int);
                    assert forall|i: int| 0 <= i < path@.len() - 1 implies #[trigger] next_step_spec(
                        grid,
                        a,
                        b,
                        path@.take(i + 1),
                        path@[i].0 as int,
                        path@[i].1 as int,
                    ) == Some(path@[i + 1]) by {
                        if i < before.len() - 1 {
                            assert(path@.take(i + 1) =~= before.take(i + 1));
                            assert(path@[i] == before[i]);
                            assert(path@[i + 1] == before[i + 1]);
                        } else {
                            assert(i == before.len() - 1);
                            assert(path@.take(i + 1) =~= before);
                        }
                    }
                }
            },
            None => {
                let closed: bool = if path.len() == 1 {
                    fully_enclosed_at(height_map, find_difference_with, seed.0, seed.1)
                } else if path.len() >= 3 {
                    let last = path[path.len() - 1];
                    (last.0 == seed.0 && (last.1 + 1 == seed.1 || seed.1 + 1 == last.1)) || (last.1
                        == seed.1 && (last.0 + 1 == seed.0 || seed.0 + 1 == last.0))
                } else {
                    false
                };
                return (path, closed);
            },
        }
    }
}

#[verifier::external_type_specification]
#[verifier::external_body]
pub struct ExSmallRng(rand::rngs::SmallRng);

/// Relies on rand's `SmallRng::seed_from_u64`: builds a deterministic
/// generator from an integer seed. The generator's algorithm is documented
/// as non-portable, so nothing is assumed of the values it will produce.
#[verifier::external_body]
fn rng_from_seed(seed: u64) -> rand::rngs::SmallRng {
    <rand::rngs::SmallRng as rand::SeedableRng>::seed_from_u64(seed)
}

/// Relies on rand's `RngCore::next_u32` on `SmallRng`: draws the generator's
/// next 32-bit value and advances its state. Nothing is assumed of which
/// value comes back.
#[verifier::external_body]
fn rng_next_u32(rng: &mut rand::rngs::SmallRng) -> u32 {
    <rand::rngs::SmallRng as rand::RngCore>::next_u32(rng)
}

/// One vertex of a border seam: a walked grid cell together with two raw
/// pseudo-random draws. A draw `d` stands for the jitter scalar
/// `d / (u32::MAX + 1)` shifted into `[-0.5, 0.5)`; the mesh layer applies
/// the scalars along the seam's local normal when building geometry.
#[derive(Clone, Copy, PartialEq, Eq, Structural, Debug)]
pub struct BorderVertex {
    pub x: usize,
    pub y: usize,
    pub shift_x: u32,
    pub shift_y: u32,
}

/// A traced border seam: the ordered seam vertices and whether they close a
/// loop (stitch as a ring) or end openly (stitch as a line).
#[derive(Clone, Debug)]
pub struct BorderPath {
    pub vertices: Vec<BorderVertex>,
    pub closed: bool,
}

/// The grid cells a sequence of seam vertices stands on, in order.
pub open spec fn positions_of(vertices: Seq<BorderVertex>) -> Seq<(usize, usize)> {
    vertices.map_values(|v: BorderVertex| (v.x, v.y))
}

/// Locate and trace the border between `target_level` and
/// `find_difference_with` for mesh stitching: walk the border cells from the
/// row-major-first seed and attach per-vertex jitter draws from a generator
/// seeded from both axes of the seed point. The walked cells satisfy the
/// full border-walk contract; the draws carry no promise, as the generator
/// is not portable.
pub fn plane_to_vertex_border_with_normal(
    height_map: &HeightMap,
    target_level: WorldLevel,
    find_difference_with: WorldLevel,
) -> (border: BorderPath)
    requires
        height_map.wf(),
    ensures
        border_path_ok(
            *height_map,
            target_level,
            find_difference_with,
            positions_of(border.vertices@),
            border.closed,
        ),
{
    let (path, closed) = trace_border(height_map, target_level, find_difference_with);
    let mut vertices: Vec<BorderVertex> = Vec::new();
    if path.len() == 0 {
        proof {
            assert(positions_of(vertices@) =~= path@);
        }
        return BorderPath { vertices, closed };
    }
    let seed = path[0];
    let mut rng = rng_from_seed(((seed.0 as u64) << 32u64) | (seed.1 as u64));
    let mut i: usize = 0;
    while i < path.len()
        invariant
            i <= path@.len(),
            vertices@.len() == i,
            forall|j: int|
                0 <= j < i ==> ((#[trigger] vertices@[j]).x, vertices@[j].y) == path@[j],
        decreases path@.len() - i,
    {
        let p = path[i];
        let shift_x = rng_next_u32(&mut rng);
        let shift_y = rng_next_u32(&mut rng);
        vertices.push(BorderVertex { x: p.0, y: p.1, shift_x, shift_y });
        i = i + 1;
    }
    proof {
        assert(positions_of(vertices@) =~= path@);
    }
    BorderPath { vertices, closed }
}

/// On a grid all of one level there is no border for any pair of two
/// distinct levels, so any walk result satisfying the border-walk contract
/// is the empty, open path. (For the degenerate pair of a level with
/// itself this does not hold: on a uniform grid of that same level every
/// cell borders its neighbors.)
pub proof fn lemma_uniform_grid_empty_border(
    grid: HeightMap,
    uniform: WorldLevel,
    a: WorldLevel,
    b: WorldLevel,
    path: Seq<(usize, usize)>,
    closed: bool,
)
    requires
        grid.wf(),
        forall|x: int, y: int|
            in_grid(grid.side_spec(), x, y) ==> grid.level_at(x, y) == uniform,
        a != b,
        border_path_ok(grid, a, b, path, closed),
    ensures
        path.len() == 0,
        !closed,
{
    assert forall|x: int, y: int| !is_border_cell(grid, a, b, x, y) by {
        if is_border_cell(grid, a, b, x, y) {
            assert(in_grid(grid.side_spec(), x, y));
            assert(grid.level_at(x, y) == uniform);
            assert(a == uniform);
            assert(has_neighbor_at_level(grid, b, x, y));
            if x > 0 && grid.level_at(x - 1, y) == b {
                assert(in_grid(grid.side_spec(), x - 1, y));
            } else if x + 1 < grid.side_spec() && grid.level_at(x + 1, y) == b {
                assert(in_grid(grid.side_spec(), x + 1, y));
            } else if y > 0 && grid.level_at(x, y - 1) == b {
                assert(in_grid(grid.side_spec(), x, y - 1));
            } else {
                assert(in_grid(grid.side_spec(), x, y + 1));
            }
            assert(b == uniform);
        }
    }
}

} // verus!
