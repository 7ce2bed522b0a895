//! The square grid map and the transforms between grid cells and world positions.
//!
//! World positions are fixed-point: one grid cell is `CELL` units wide, and the map
//! is centred on the origin.
use vstd::prelude::*;

verus! {

/// Width and height of the map in cells.
pub const MAP_SIZE: usize = 41;

/// Number of cells in the map.
pub const MAP_CELLS: usize = 1681;

/// World units per grid cell.
pub const CELL: i64 = 1000;

/// Half the map's width in world units.
pub const HALF_EXTENT: i64 = 20500;

/// Type of a map cell.
#[derive(Clone, Copy, Debug, Default, PartialEq, Eq, Structural)]
pub enum CellType {
    /// Nothing in this cell.
    #[default]
    Empty,
    /// Filled with a collidable block.
    WallBlock,
}

/// A world position in fixed-point units.
#[derive(Clone, Copy, Debug, Default, PartialEq, Eq, Structural)]
pub struct Pos {
    pub x: i64,
    pub y: i64,
}

/// The cell at column `x`, row `y` of the generated layout: walls on the columns
/// where `x + 4` is a multiple of 6 or of 9, except on rows `y` where `y` or `y + 1`
/// is a multiple of 4.
pub open spec fn pattern_cell(x: int, y: int) -> CellType {
    if ((x + 4) % 6 == 0 || (x + 4) % 9 == 0) && !(y % 4 == 0 || (y + 1) % 4 == 0) {
        CellType::WallBlock
    } else {
        CellType::Empty
    }
}

/// Index of cell `(x, y)` in the flat cell list.
pub open spec fn cell_index(x: int, y: int) -> int {
    x * MAP_SIZE + y
}

/// A `MAP_SIZE` by `MAP_SIZE` grid of cells, stored column by column.
#[derive(Debug, PartialEq, Eq)]
pub struct GridMap {
    pub cells: Vec<CellType>,
}

impl View for GridMap {
    type V = Seq<CellType>;

    open spec fn view(&self) -> Seq<CellType> {
        self.cells@
    }
}

/// The cell at `(x, y)` of a map's cell list.
pub open spec fn cell_of(cells: Seq<CellType>, x: int, y: int) -> CellType {
    cells[cell_index(x, y)]
}

/// The generated layout as a cell list.
pub open spec fn map_layout() -> Seq<CellType> {
    Seq::new(MAP_CELLS as nat, |i: int| pattern_cell(i / 41, i % 41))
}

/// Whether `cells` holds exactly the generated layout.
pub open spec fn is_generated(cells: Seq<CellType>) -> bool {
    &&& cells.len() == MAP_CELLS
    &&& forall|x: int, y: int|
        0 <= x < MAP_SIZE && 0 <= y < MAP_SIZE ==> #[trigger] cell_of(cells, x, y) == pattern_cell(x, y)
}

proof fn lemma_cell_index_bounds(x: int, y: int)
    requires
        0 <= x < MAP_SIZE,
        0 <= y < MAP_SIZE,
    ensures
        0 <= cell_index(x, y) < MAP_CELLS,
{
    assert(0 <= x * 41 <= 40 * 41) by (nonlinear_arith)
        requires 0 <= x <= 40;
}

impl GridMap {
    pub open spec fn wf(&self) -> bool {
        self.cells@.len() == MAP_CELLS
    }

    pub open spec fn cell_spec(&self, x: int, y: int) -> CellType {
        cell_of(self.cells@, x, y)
    }

    /// A map with every cell empty.
    pub fn new() -> (r: GridMap)
        ensures
            r.wf(),
            forall|i: int| 0 <= i < MAP_CELLS ==> r.cells@[i] == CellType::Empty,
    {
        let mut cells: Vec<CellType> = Vec::new();
        let mut i: usize = 0;
        while i < MAP_CELLS
            invariant
                i <= MAP_CELLS,
                cells@.len() == i,
                forall|k: int| 0 <= k < i ==> cells@[k] == CellType::Empty,
            decreases MAP_CELLS - i,
        {
            cells.push(CellType::Empty);
            i = i + 1;
        }
        GridMap { cells }
    }

    /// The generated layout: a periodic lattice of walls.
    pub fn test_map() -> (r: GridMap)
        ensures
            r.wf(),
            is_generated(r@),
    {
        let mut cells: Vec<CellType> = Vec::new();
        let mut x: usize = 0;
        while x < MAP_SIZE
            invariant
                x <= MAP_SIZE,
                cells@.len() == x * MAP_SIZE,
                forall|a: int, b: int|
                    0 <= a < x && 0 <= b < MAP_SIZE ==> #[trigger] cell_of(cells@, a, b) == pattern_cell(a, b),
            decreases MAP_SIZE - x,
        {
            let mut y: usize = 0;
            while y < MAP_SIZE
                invariant
                    x < MAP_SIZE,
                    y <= MAP_SIZE,
                    cells@.len() == x * MAP_SIZE + y,
                    forall|a: int, b: int|
                        0 <= a < x && 0 <= b < MAP_SIZE ==> #[trigger] cell_of(cells@, a, b) == pattern_cell(a, b),
                    forall|b: int| 0 <= b < y ==> #[trigger] cell_of(cells@, x as int, b) == pattern_cell(x as int, b),
                decreases MAP_SIZE - y,
            {
                let wall = ((x + 4) % 6 == 0 || (x + 4) % 9 == 0) && !(y % 4 == 0 || (y + 1) % 4 == 0);
                let old_cells = Ghost(cells@);
                if wall {
                    cells.push(CellType::WallBlock);
                } else {
                    cells.push(CellType::Empty);
                }
                assert forall|a: int, b: int|
                    0 <= a < x && 0 <= b < MAP_SIZE implies #[trigger] cell_of(cells@, a, b) == pattern_cell(a, b) by {
                    lemma_cell_index_bounds(a, b);
                    assert(cell_index(a, b) < x * MAP_SIZE) by (nonlinear_arith)
                        requires 0 <= a < x, 0 <= b < 41, cell_index(a, b) == a * 41 + b;
                    assert(cell_of(old_cells@, a, b) == pattern_cell(a, b));
                }
                assert forall|b: int| 0 <= b < y + 1 implies #[trigger] cell_of(cells@, x as int, b) == pattern_cell(x as int, b) by {
                    if b < y {
                        assert(cell_of(old_cells@, x as int, b) == pattern_cell(x as int, b));
                    }
                }
                y = y + 1;
            }
            x = x + 1;
        }
        assert(cells@.len() == MAP_CELLS);
        GridMap { cells }
    }

    /// The cell at column `x`, row `y`.
    pub fn cell_at(&self, x: u32, y: u32) -> (r: CellType)
        requires
            self.wf(),
            x < MAP_SIZE,
            y < MAP_SIZE,
        ensures
            r == self.cell_spec(x as int, y as int),
    {
        proof {
            lemma_cell_index_bounds(x as int, y as int);
        }
        self.cells[x as usize * MAP_SIZE + y as usize]
    }
}

/// Generates the map used for a round.
pub fn generate_map() -> (r: GridMap)
    ensures
        r.wf(),
        is_generated(r@),
        r@ == map_layout(),
{
    let r = GridMap::test_map();
    proof {
        lemma_generated_is_layout(r@);
    }
    r
}

/// The generated layout is the one cell list that `is_generated` admits.
pub proof fn lemma_generated_is_layout(cells: Seq<CellType>)
    requires
        is_generated(cells),
    ensures
        cells == map_layout(),
{
    assert forall|i: int| 0 <= i < cells.len() implies cells[i] == map_layout()[i] by {
        let x = i / 41;
        let y = i % 41;
        assert(i == cell_index(x, y));
        assert(cell_of(cells, x, y) == pattern_cell(x, y));
    }
    assert(cells =~= map_layout());
}

/// Two generated maps hold the same cells: generation reads no state.
pub proof fn generation_is_deterministic(a: Seq<CellType>, b: Seq<CellType>)
    requires
        is_generated(a),
        is_generated(b),
    ensures
        a == b,
{
    assert forall|i: int| 0 <= i < a.len() implies a[i] == b[i] by {
        let x = i / 41;
        let y = i % 41;
        assert(i == cell_index(x, y));
        assert(cell_of(a, x, y) == pattern_cell(x, y));
        assert(cell_of(b, x, y) == pattern_cell(x, y));
    }
    assert(a =~= b);
}

/// World position of the centre of grid cell `(gx, gy)`.
pub open spec fn grid_to_world_spec(gx: int, gy: int) -> Pos {
    Pos { x: (gx * CELL - HALF_EXTENT + CELL / 2) as i64, y: (gy * CELL - HALF_EXTENT + CELL / 2) as i64 }
}

/// Takes a grid cell and gives the world position of its centre.
pub fn grid_to_world(grid_pos: (u32, u32)) -> (r: Pos)
    requires
        grid_pos.0 < MAP_SIZE,
        grid_pos.1 < MAP_SIZE,
    ensures
        r == grid_to_world_spec(grid_pos.0 as int, grid_pos.1 as int),
        r.x == grid_pos.0 * CELL - 20000,
        r.y == grid_pos.1 * CELL - 20000,
{
    Pos {
        x: grid_pos.0 as i64 * CELL - HALF_EXTENT + CELL / 2,
        y: grid_pos.1 as i64 * CELL - HALF_EXTENT + CELL / 2,
    }
}

/// Grid coordinate of world coordinate `v` along one axis, if it lies on the map.
pub open spec fn axis_to_grid(v: int) -> Option<u32> {
    let t = v + HALF_EXTENT;
    if t < 0 || t >= MAP_SIZE * CELL {
        None
    } else {
        Some((t / (CELL as int)) as u32)
    }
}

/// Grid cell holding world position `p`, if it lies on the map.
pub open spec fn world_to_grid_spec(p: Pos) -> Option<(u32, u32)> {
    match (axis_to_grid(p.x as int), axis_to_grid(p.y as int)) {
        (Some(x), Some(y)) => Some((x, y)),
        _ => None,
    }
}

fn axis_to_grid_exec(v: i64) -> (r: Option<u32>)
    ensures
        r == axis_to_grid(v as int),
        r matches Some(c) ==> c < MAP_SIZE,
{
    if v < -HALF_EXTENT || v >= MAP_SIZE as i64 * CELL - HALF_EXTENT {
        None
    } else {
        Some(((v + HALF_EXTENT) / CELL) as u32)
    }
}

/// Takes a world position and gives the grid cell that holds it, or `None` when it
/// lies outside the map.
pub fn world_to_grid(world_pos: Pos) -> (r: Option<(u32, u32)>)
    ensures
        r == world_to_grid_spec(world_pos),
        r matches Some(c) ==> c.0 < MAP_SIZE && c.1 < MAP_SIZE,
{
    let x = axis_to_grid_exec(world_pos.x);
    let y = axis_to_grid_exec(world_pos.y);
    match (x, y) {
        (Some(x), Some(y)) => Some((x, y)),
        _ => None,
    }
}

} // verus!
