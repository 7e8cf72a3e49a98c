//! Classification of raw noise samples into discrete terrain levels, and the
//! square height grid built from one compute pass's output buffer.

use vstd::prelude::*;

verus! {

/// Discrete terrain classification derived from one raw sample.
#[derive(Clone, Copy, PartialEq, Eq, Structural, Debug)]
pub enum WorldLevel {
    Water,
    Grass,
    Mountain,
}

/// The level a raw sample classifies to: only the low 8 bits of the sample
/// matter, and the thresholds partition the byte range without gaps.
pub open spec fn classify_spec(sample: u32) -> WorldLevel {
    if sample % 256 < 100 {
        WorldLevel::Water
    } else if sample % 256 < 140 {
        WorldLevel::Grass
    } else {
        WorldLevel::Mountain
    }
}

/// Classify one raw sample by its low 8 bits.
pub fn classify(sample: u32) -> (level: WorldLevel)
    ensures
        level == classify_spec(sample),
{
    let byte: u32 = sample % 256;
    if byte < 100 {
        WorldLevel::Water
    } else if byte < 140 {
        WorldLevel::Grass
    } else {
        WorldLevel::Mountain
    }
}

/// Classification is total and the thresholds partition the sample space:
/// a sample is Water exactly when its low byte is below 100, Grass exactly
/// when it lies in 100..140, and Mountain exactly when it is 140 or above.
pub proof fn lemma_classify_partitions(sample: u32)
    ensures
        (classify_spec(sample) == WorldLevel::Water) <==> (sample % 256 < 100),
        (classify_spec(sample) == WorldLevel::Grass) <==> (100 <= sample % 256 < 140),
        (classify_spec(sample) == WorldLevel::Mountain) <==> (sample % 256 >= 140),
{
}

/// Classified terrain grid for one chunk: a square grid of levels, stored
/// row-major, immutable once attached to a chunk record.
#[derive(Clone, Debug)]
pub struct HeightMap {
    pub side: usize,
    pub cells: Vec<WorldLevel>,
}

impl HeightMap {
    /// A well-formed grid holds exactly side * side cells.
    pub open spec fn wf(&self) -> bool {
        self.cells@.len() == self.side * self.side
    }

    pub open spec fn side_spec(&self) -> int {
        self.side as int
    }

    /// The grid as a row-major sequence of levels.
    pub open spec fn cells_spec(&self) -> Seq<WorldLevel> {
        self.cells@
    }

    /// The level at a row and column of the grid.
    pub open spec fn level_at(&self, row: int, col: int) -> WorldLevel {
        self.cells@[row * self.side_spec() + col]
    }

    /// Build a grid directly from its side length and row-major cells.
    pub fn from_cells(side: usize, cells: Vec<WorldLevel>) -> (grid: HeightMap)
        requires
            cells@.len() == side * side,
        ensures
            grid.wf(),
            grid.side_spec() == side,
            grid.cells_spec() == cells@,
    {
        HeightMap { side, cells }
    }

    pub fn side(&self) -> (side: usize)
        ensures
            side == self.side_spec(),
    {
        self.side
    }

    /// Read the level at a row and column.
    pub fn get(&self, row: usize, col: usize) -> (level: WorldLevel)
        requires
            self.wf(),
            row < self.side_spec(),
            col < self.side_spec(),
        ensures
            level == self.level_at(row as int, col as int),
    {
        proof {
            lemma_row_major_index_in_range(self.side as int, row as int, col as int);
        }
        // Reading the length pins the grid area to a machine word, so the
        // row-major index below cannot overflow.
        let _area: usize = self.cells.len();
        self.cells[row * self.side + col]
    }
}

/// A row-major index lies inside the grid whenever its row and column do.
pub proof fn lemma_row_major_index_in_range(side: int, row: int, col: int)
    requires
        0 <= row < side,
        0 <= col < side,
    ensures
        0 <= row * side + col < side * side,
{
    assert(row * side + col < side * side) by (nonlinear_arith)
        requires
            0 <= row < side,
            0 <= col < side,
    ;
    assert(0 <= row * side + col) by (nonlinear_arith)
        requires
            0 <= row,
            0 <= col,
            0 < side,
    ;
}

/// Build the classified height grid from one compute pass's raw sample
/// buffer. The buffer length must equal the grid area: a mismatched buffer
/// is a programmer error, refused by precondition rather than read out of
/// bounds. Every cell of the result is populated: cell i holds the
/// classification of sample i.
pub fn transform_to_height_map(data: Vec<u32>, side: usize) -> (grid: HeightMap)
    requires
        data@.len() == side * side,
    ensures
        grid.wf(),
        grid.side_spec() == side,
        forall|i: int| 0 <= i < side * side ==> grid.cells_spec()[i] == classify_spec(data@[i]),
{
    let mut cells: Vec<WorldLevel> = Vec::new();
    let total: usize = data.len();
    let mut i: usize = 0;
    while i < total
        invariant
            total == side * side,
            data@.len() == total,
            i <= total,
            cells@.len() == i,
            forall|j: int| 0 <= j < i ==> cells@[j] == classify_spec(data@[j]),
        decreases total - i,
    {
        let level = classify(data[i]);
        cells.push(level);
        i = i + 1;
    }
    HeightMap { side, cells }
}

} // verus!
