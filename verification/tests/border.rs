use chunk_terrain::height_map::{transform_to_height_map, HeightMap, WorldLevel};
use chunk_terrain::heightmap_to_map::{
    find_border_seed, plane_to_vertex_border_with_normal, trace_border,
};

fn grid_of(side: usize, levels: &[WorldLevel]) -> HeightMap {
    assert_eq!(levels.len(), side * side);
    HeightMap::from_cells(side, levels.to_vec())
}

#[test]
fn uniform_grid_has_no_border_for_any_distinct_pair() {
    let grid = grid_of(4, &[WorldLevel::Grass; 16]);
    let pairs = [
        (WorldLevel::Water, WorldLevel::Grass),
        (WorldLevel::Water, WorldLevel::Mountain),
        (WorldLevel::Grass, WorldLevel::Water),
        (WorldLevel::Grass, WorldLevel::Mountain),
        (WorldLevel::Mountain, WorldLevel::Water),
        (WorldLevel::Mountain, WorldLevel::Grass),
    ];
    for (a, b) in pairs {
        assert_eq!(find_border_seed(&grid, a, b), None);
        let (path, closed) = trace_border(&grid, a, b);
        assert!(path.is_empty());
        assert!(!closed);
        let border = plane_to_vertex_border_with_normal(&grid, a, b);
        assert!(border.vertices.is_empty());
        assert!(!border.closed);
    }
}

#[test]
fn single_cell_inclusion_yields_a_closed_one_cell_loop() {
    let m = WorldLevel::Mountain;
    let w = WorldLevel::Water;
    let grid = grid_of(3, &[m, m, m, m, w, m, m, m, m]);

    assert_eq!(find_border_seed(&grid, w, m), Some((1, 1)));
    let (path, closed) = trace_border(&grid, w, m);
    assert_eq!(path, vec![(1, 1)]);
    assert!(closed);
}

#[test]
fn straight_border_yields_an_open_path_along_the_edge() {
    let m = WorldLevel::Mountain;
    let w = WorldLevel::Water;
    // Left column water, the rest mountain: the border runs down the column
    // and ends against the chunk edge.
    let grid = grid_of(3, &[w, m, m, w, m, m, w, m, m]);

    assert_eq!(find_border_seed(&grid, w, m), Some((0, 0)));
    let (path, closed) = trace_border(&grid, w, m);
    assert_eq!(path, vec![(0, 0), (1, 0), (2, 0)]);
    assert!(!closed);
}

#[test]
fn walk_follows_the_clockwise_probe_order_and_closes_the_loop() {
    let m = WorldLevel::Mountain;
    let w = WorldLevel::Water;
    // A 2x2 water block walled in by mountains: its four cells are all
    // border cells and form a cycle. From the seed (1, 1) the clockwise
    // probe (up, right, down, left) walks (1, 2), (2, 2), (2, 1) and then
    // finds no unvisited border cell; the end touches the seed, closing the
    // loop.
    let grid = grid_of(
        4,
        &[m, m, m, m, m, w, w, m, m, w, w, m, m, m, m, m],
    );

    let (path, closed) = trace_border(&grid, w, m);
    assert_eq!(path, vec![(1, 1), (1, 2), (2, 2), (2, 1)]);
    assert!(closed);
}

#[test]
fn seed_is_the_first_row_major_border_cell() {
    let m = WorldLevel::Mountain;
    let w = WorldLevel::Water;
    let g = WorldLevel::Grass;
    // Two water cells: (1, 0) has no mountain neighbor, while (1, 2)
    // touches the mountain at (2, 2). The scan must skip (1, 0) and seed
    // at (1, 2).
    let grid = grid_of(
        3,
        &[g, g, g, w, g, w, g, g, m],
    );
    assert_eq!(find_border_seed(&grid, w, m), Some((1, 2)));
}

#[test]
fn border_vertices_carry_the_walked_cells_with_deterministic_jitter() {
    let m = WorldLevel::Mountain;
    let w = WorldLevel::Water;
    let grid = grid_of(3, &[w, m, m, w, m, m, w, m, m]);

    let border = plane_to_vertex_border_with_normal(&grid, w, m);
    let positions: Vec<(usize, usize)> =
        border.vertices.iter().map(|v| (v.x, v.y)).collect();
    assert_eq!(positions, vec![(0, 0), (1, 0), (2, 0)]);
    assert!(!border.closed);

    // The jitter generator is seeded from the seed point's coordinate, so a
    // second run over the same grid reproduces the same draws.
    let again = plane_to_vertex_border_with_normal(&grid, w, m);
    assert_eq!(border.vertices.len(), again.vertices.len());
    for (v, u) in border.vertices.iter().zip(again.vertices.iter()) {
        assert_eq!((v.x, v.y, v.shift_x, v.shift_y), (u.x, u.y, u.shift_x, u.shift_y));
    }
}

#[test]
fn checkerboard_seed_sits_at_the_origin() {
    let mut data: Vec<u32> = Vec::new();
    for row in 0..64u32 {
        for col in 0..64u32 {
            data.push(if (row + col) % 2 == 0 { 50 } else { 150 });
        }
    }
    let grid = transform_to_height_map(data, 64);
    // (0, 0) classifies to water and its neighbor (0, 1) to mountain, so the
    // row-major scan seeds the border walk at the origin.
    assert_eq!(
        find_border_seed(&grid, WorldLevel::Water, WorldLevel::Mountain),
        Some((0, 0))
    );
    let (path, _closed) = trace_border(&grid, WorldLevel::Water, WorldLevel::Mountain);
    assert_eq!(path[0], (0, 0));
}
