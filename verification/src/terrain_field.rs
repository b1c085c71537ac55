use vstd::prelude::*;
use crate::{COORD_LIMIT, ELEV_LIMIT};

verus! {

/// A height field sampled on a regular grid of square cells.
///
/// The growth engine only ever asks one question of the terrain: "what is
/// the elevation at this coordinate, if the coordinate lies inside the
/// generation domain at all?" This type answers it from a grid of optional
/// fixed-point elevations; how the grid was filled (erosion simulation,
/// noise, a constant) is the caller's concern.
pub struct TerrainField {
    pub min_x: i64,
    pub min_y: i64,
    pub cell_size: i64,
    pub width: usize,
    pub height: usize,
    pub cells: Vec<Option<i64>>,
}

/// The parameter checks a grid must pass: positive dimensions, a cell
/// count matching the dimensions, a span within the geometry's coordinate
/// bounds, and bounded elevations.
pub open spec fn grid_valid(min_x: i64, min_y: i64, cell_size: i64, width: usize, height: usize, cells: Seq<Option<i64>>) -> bool {
    &&& 1 <= cell_size
    &&& 1 <= width
    &&& 1 <= height
    &&& cells.len() == width * height
    &&& -COORD_LIMIT <= min_x
    &&& -COORD_LIMIT <= min_y
    &&& min_x + cell_size * width <= COORD_LIMIT
    &&& min_y + cell_size * height <= COORD_LIMIT
    &&& forall|i: int|
        0 <= i < cells.len() ==> (#[trigger] cells[i] matches Some(e) ==> -ELEV_LIMIT <= e
            <= ELEV_LIMIT)
}

impl TerrainField {
    /// Well-formedness: positive cell size, a grid that stays within the
    /// coordinate bounds of the geometry, and bounded elevations.
    pub open spec fn inv(self) -> bool {
        &&& 1 <= self.cell_size
        &&& 1 <= self.width
        &&& 1 <= self.height
        &&& self.cells@.len() == self.width * self.height
        &&& -COORD_LIMIT <= self.min_x
        &&& -COORD_LIMIT <= self.min_y
        &&& self.min_x + self.cell_size * self.width <= COORD_LIMIT
        &&& self.min_y + self.cell_size * self.height <= COORD_LIMIT
        &&& forall|i: int|
            0 <= i < self.cells@.len() ==> (#[trigger] self.cells@[i] matches Some(e)
                ==> -ELEV_LIMIT <= e <= ELEV_LIMIT)
    }

    /// The elevation at a coordinate: the value of the grid cell the
    /// coordinate falls into, `None` outside the grid.
    pub open spec fn at_spec(self, x: int, y: int) -> Option<i64> {
        if x < self.min_x || y < self.min_y {
            Option::None
        } else {
            let col = (x - self.min_x) / (self.cell_size as int);
            let row = (y - self.min_y) / (self.cell_size as int);
            if col >= self.width || row >= self.height {
                Option::None
            } else {
                self.cells@[row * self.width + col]
            }
        }
    }

    /// Builds a field after checking well-formedness; `None` exactly when
    /// the parameters describe no valid grid.
    pub fn new(min_x: i64, min_y: i64, cell_size: i64, width: usize, height: usize, cells: Vec<
        Option<i64>,
    >) -> (r: Option<TerrainField>)
        ensures
            match r {
                Option::Some(t) => {
                    &&& t.inv()
                    &&& t.min_x == min_x
                    &&& t.min_y == min_y
                    &&& t.cell_size == cell_size
                    &&& t.width == width
                    &&& t.height == height
                    &&& t.cells@ == cells@
                },
                Option::None => true,
            },
            r is Some <==> grid_valid(min_x, min_y, cell_size, width, height, cells@),
    {
        if cell_size < 1 || width < 1 || height < 1 {
            return Option::None;
        }
        if min_x < -COORD_LIMIT || min_y < -COORD_LIMIT {
            return Option::None;
        }
        proof {
            assert(cell_size * width >= width && cell_size * width >= cell_size && cell_size
                * height >= height && cell_size * height >= cell_size) by (nonlinear_arith)
                requires
                    cell_size >= 1,
                    width >= 1,
                    height >= 1,
            {}
        }
        if width > 1_000_000 || height > 1_000_000 || cell_size > 1_000_000 {
            return Option::None;
        }
        assert((width as u64) * (height as u64) == width * height && width * height
            <= 1_000_000_000_000) by (nonlinear_arith)
            requires
                1 <= width <= 1_000_000,
                1 <= height <= 1_000_000,
        {}
        let area: u64 = (width as u64) * (height as u64);
        if (cells.len() as u64) != area {
            return Option::None;
        }
        assert((cell_size as u64) * (width as u64) == cell_size * width && (cell_size as u64) * (
        height as u64) == cell_size * height && cell_size * width <= 1_000_000_000_000 && cell_size
            * height <= 1_000_000_000_000) by (nonlinear_arith)
            requires
                1 <= cell_size <= 1_000_000,
                1 <= width <= 1_000_000,
                1 <= height <= 1_000_000,
        {}
        let span_x: u64 = (cell_size as u64) * (width as u64);
        let span_y: u64 = (cell_size as u64) * (height as u64);
        if span_x > 1_000_000 || span_y > 1_000_000 {
            return Option::None;
        }
        if min_x > COORD_LIMIT - (span_x as i64) || min_y > COORD_LIMIT - (span_y as i64) {
            return Option::None;
        }
        let mut i: usize = 0;
        while i < cells.len()
            invariant
                0 <= i <= cells@.len(),
                forall|k: int|
                    0 <= k < i ==> (#[trigger] cells@[k] matches Some(e) ==> -ELEV_LIMIT <= e
                        <= ELEV_LIMIT),
            decreases cells@.len() - i,
        {
            match cells[i] {
                Option::Some(e) => {
                    if e < -ELEV_LIMIT || e > ELEV_LIMIT {
                        return Option::None;
                    }
                },
                Option::None => {},
            }
            i = i + 1;
        }
        Option::Some(TerrainField { min_x, min_y, cell_size, width, height, cells })
    }

    /// A coordinate with a defined elevation lies within the geometry's
    /// bounds, and the elevation itself is bounded.
    pub proof fn lemma_at_in_bounds(self, x: int, y: int)
        requires
            self.inv(),
            self.at_spec(x, y) is Some,
        ensures
            -COORD_LIMIT <= x <= COORD_LIMIT,
            -COORD_LIMIT <= y <= COORD_LIMIT,
            -ELEV_LIMIT <= self.at_spec(x, y).unwrap() <= ELEV_LIMIT,
    {
        let cell = self.cell_size as int;
        let dx = x - self.min_x;
        let dy = y - self.min_y;
        let col = dx / cell;
        let row = dy / cell;
        vstd::arithmetic::div_mod::lemma_fundamental_div_mod(dx, cell);
        vstd::arithmetic::div_mod::lemma_fundamental_div_mod(dy, cell);
        crate::num::lemma_mod_range(dx, cell);
        crate::num::lemma_mod_range(dy, cell);
        vstd::arithmetic::div_mod::lemma_div_pos_is_pos(dx, cell);
        vstd::arithmetic::div_mod::lemma_div_pos_is_pos(dy, cell);
        assert(cell * col <= cell * (self.width - 1)) by (nonlinear_arith)
            requires
                col <= self.width - 1,
                cell >= 1,
        {}
        assert(cell * row <= cell * (self.height - 1)) by (nonlinear_arith)
            requires
                row <= self.height - 1,
                cell >= 1,
        {}
        assert(cell * (self.width - 1) == cell * self.width - cell) by (nonlinear_arith) {}
        assert(cell * (self.height - 1) == cell * self.height - cell) by (nonlinear_arith) {}
        assert(0 <= row * self.width + col < self.cells@.len()) by (nonlinear_arith)
            requires
                0 <= col < self.width,
                0 <= row < self.height,
                self.cells@.len() == self.width * self.height,
        {}
    }

    /// Looks the coordinate up in the grid.
    pub fn at(&self, x: i64, y: i64) -> (r: Option<i64>)
        requires
            self.inv(),
            -2_000_000 <= x <= 2_000_000,
            -2_000_000 <= y <= 2_000_000,
        ensures
            r == self.at_spec(x as int, y as int),
    {
        if x < self.min_x || y < self.min_y {
            return Option::None;
        }
        let dx: u64 = (x - self.min_x) as u64;
        let dy: u64 = (y - self.min_y) as u64;
        let col: u64 = dx / (self.cell_size as u64);
        let row: u64 = dy / (self.cell_size as u64);
        if col >= self.width as u64 || row >= self.height as u64 {
            return Option::None;
        }
        let coli: usize = col as usize;
        let rowi: usize = row as usize;
        assert(self.width <= 1_000_000 && self.height <= 1_000_000) by (nonlinear_arith)
            requires
                1 <= self.cell_size,
                1 <= self.width,
                1 <= self.height,
                -COORD_LIMIT <= self.min_x,
                -COORD_LIMIT <= self.min_y,
                self.min_x + self.cell_size * self.width <= COORD_LIMIT,
                self.min_y + self.cell_size * self.height <= COORD_LIMIT,
        {}
        assert(rowi * self.width <= 1_000_000_000_000 && rowi * self.width + coli
            < self.cells@.len()) by (nonlinear_arith)
            requires
                rowi < self.height,
                coli < self.width,
                self.width <= 1_000_000,
                self.height <= 1_000_000,
                self.cells@.len() == self.width * self.height,
        {}
        let n: usize = self.cells.len();
        let idx64: u64 = (rowi as u64) * (self.width as u64) + (coli as u64);
        assert(idx64 < n);
        let idx: usize = idx64 as usize;
        self.cells[idx]
    }
}

} // verus!
