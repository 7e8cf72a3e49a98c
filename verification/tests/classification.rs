use chunk_terrain::height_map::{classify, transform_to_height_map, WorldLevel};

#[test]
fn classify_thresholds_partition_the_byte_range() {
    assert_eq!(classify(0), WorldLevel::Water);
    assert_eq!(classify(50), WorldLevel::Water);
    assert_eq!(classify(99), WorldLevel::Water);
    assert_eq!(classify(100), WorldLevel::Grass);
    assert_eq!(classify(139), WorldLevel::Grass);
    assert_eq!(classify(140), WorldLevel::Mountain);
    assert_eq!(classify(150), WorldLevel::Mountain);
    assert_eq!(classify(255), WorldLevel::Mountain);
}

#[test]
fn classify_reads_only_the_low_eight_bits() {
    assert_eq!(classify(256), WorldLevel::Water);
    assert_eq!(classify(256 + 99), WorldLevel::Water);
    assert_eq!(classify(256 + 100), WorldLevel::Grass);
    assert_eq!(classify(1024 + 140), WorldLevel::Mountain);
    assert_eq!(classify(u32::MAX), WorldLevel::Mountain);
    assert_eq!(classify(0xDEAD_BE00), WorldLevel::Water);
}

#[test]
fn transform_builds_the_full_grid_row_major() {
    let data: Vec<u32> = vec![50, 150, 139, 140];
    let grid = transform_to_height_map(data, 2);
    assert_eq!(grid.side(), 2);
    assert_eq!(grid.get(0, 0), WorldLevel::Water);
    assert_eq!(grid.get(0, 1), WorldLevel::Mountain);
    assert_eq!(grid.get(1, 0), WorldLevel::Grass);
    assert_eq!(grid.get(1, 1), WorldLevel::Mountain);
}

#[test]
fn transform_on_a_uniform_buffer_is_uniform() {
    let data: Vec<u32> = vec![50; 4096];
    let grid = transform_to_height_map(data, 64);
    assert_eq!(grid.side(), 64);
    for row in 0..64 {
        for col in 0..64 {
            assert_eq!(grid.get(row, col), WorldLevel::Water);
        }
    }
}

#[test]
fn transform_checkerboard_alternates_levels() {
    let mut data: Vec<u32> = Vec::new();
    for row in 0..64u32 {
        for col in 0..64u32 {
            data.push(if (row + col) % 2 == 0 { 50 } else { 150 });
        }
    }
    let grid = transform_to_height_map(data, 64);
    for row in 0..64 {
        for col in 0..64 {
            let expected = if (row + col) % 2 == 0 {
                WorldLevel::Water
            } else {
                WorldLevel::Mountain
            };
            assert_eq!(grid.get(row, col), expected);
        }
    }
}

#[test]
fn transform_accepts_an_empty_grid() {
    let data: Vec<u32> = Vec::new();
    let grid = transform_to_height_map(data, 0);
    assert_eq!(grid.side(), 0);
}
