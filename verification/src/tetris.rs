//! A small falling-block game: the grid, the pieces and the game state.

use vstd::prelude::*;

verus! {

/// Number of columns of the grid.
pub const GRID_WIDTH: usize = 10;

/// Number of rows of the grid.
pub const GRID_HEIGHT: usize = 20;

/// Whether one grid cell is filled.
#[derive(Clone, Copy, Debug, PartialEq, Eq, PartialOrd, Ord, Structural)]
pub enum BlockStatus {
    Empty,
    Occupied,
}

/// One cell of the grid.
#[derive(Clone, Copy, Debug)]
pub struct Block {
    pub status: BlockStatus,
}

/// The relative cell offsets of a piece in one orientation.
pub type Rotation = Vec<(isize, isize)>;

/// The four orientations of a piece.
pub type Rotations = Vec<Rotation>;

/// The kinds of pieces.
#[derive(Clone, Copy, Debug)]
pub enum Shape {
    I,
    T,
}

/// The four orientations of each shape, as cell offsets from the piece's
/// origin. The origin cell `(0, 0)` always comes first.
pub open spec fn rotations_spec(shape: Shape) -> Seq<Seq<(isize, isize)>> {
    match shape {
        Shape::I => seq![
            seq![(0isize, 0isize), (-1isize, 0isize), (1isize, 0isize), (2isize, 0isize)],
            seq![(0isize, 0isize), (0isize, -1isize), (0isize, 1isize), (0isize, 2isize)],
            seq![(0isize, 0isize), (-1isize, 0isize), (1isize, 0isize), (2isize, 0isize)],
            seq![(0isize, 0isize), (0isize, -1isize), (0isize, 1isize), (0isize, 2isize)],
        ],
        Shape::T => seq![
            seq![(0isize, 0isize), (-1isize, 0isize), (1isize, 0isize), (0isize, 1isize)],
            seq![(0isize, 0isize), (0isize, -1isize), (0isize, 1isize), (-1isize, 0isize)],
            seq![(0isize, 0isize), (-1isize, 0isize), (1isize, 0isize), (0isize, -1isize)],
            seq![(0isize, 0isize), (0isize, -1isize), (0isize, 1isize), (1isize, 0isize)],
        ],
    }
}

/// Builds the orientation table of a shape.
pub fn shape_rotations(shape: Shape) -> (r: Rotations)
    ensures
        r@.len() == 4,
        forall|i: int| 0 <= i < 4 ==> r@[i]@ == rotations_spec(shape)[i],
{
    let r: Rotations = match shape {
        Shape::I => vec![
            vec![(0isize, 0isize), (-1isize, 0isize), (1isize, 0isize), (2isize, 0isize)],
            vec![(0isize, 0isize), (0isize, -1isize), (0isize, 1isize), (0isize, 2isize)],
            vec![(0isize, 0isize), (-1isize, 0isize), (1isize, 0isize), (2isize, 0isize)],
            vec![(0isize, 0isize), (0isize, -1isize), (0isize, 1isize), (0isize, 2isize)],
        ],
        Shape::T => vec![
            vec![(0isize, 0isize), (-1isize, 0isize), (1isize, 0isize), (0isize, 1isize)],
            vec![(0isize, 0isize), (0isize, -1isize), (0isize, 1isize), (-1isize, 0isize)],
            vec![(0isize, 0isize), (-1isize, 0isize), (1isize, 0isize), (0isize, -1isize)],
            vec![(0isize, 0isize), (0isize, -1isize), (0isize, 1isize), (1isize, 0isize)],
        ],
    };
    proof {
        assert forall|i: int| 0 <= i < 4 implies r@[i]@ == rotations_spec(shape)[i] by {
            assert(r@[0]@ =~= rotations_spec(shape)[0]);
            assert(r@[1]@ =~= rotations_spec(shape)[1]);
            assert(r@[2]@ =~= rotations_spec(shape)[2]);
            assert(r@[3]@ =~= rotations_spec(shape)[3]);
        }
    }
    r
}

/// A piece together with its orientation table and current orientation.
pub struct Tetromino {
    rotations: Rotations,
    shape: Shape,
    rotation: usize,
}

impl Tetromino {
    /// The orientation table matches the shape and the current orientation
    /// index is valid.
    pub open spec fn wf(self) -> bool {
        &&& 0 <= self.spec_rotation() < 4
        &&& self.spec_rotations().len() == 4
        &&& forall|i: int| 0 <= i < 4 ==> self.spec_rotations()[i] == rotations_spec(
            self.spec_shape(),
        )[i]
    }

    /// The shape of the piece.
    pub closed spec fn spec_shape(self) -> Shape {
        self.shape
    }

    /// The current orientation index.
    pub closed spec fn spec_rotation(self) -> int {
        self.rotation as int
    }

    /// The orientation table, one sequence of cell offsets per orientation.
    pub closed spec fn spec_rotations(self) -> Seq<Seq<(isize, isize)>> {
        self.rotations@.map_values(|r: Rotation| r@)
    }

    /// The cell offsets of the current orientation.
    pub open spec fn spec_cells(self) -> Seq<(isize, isize)> {
        rotations_spec(self.spec_shape())[self.spec_rotation()]
    }

    /// A new piece of the given shape, in its first orientation.
    pub fn new(shape: Shape) -> (r: Tetromino)
        ensures
            r.wf(),
            r.spec_shape() == shape,
            r.spec_rotation() == 0,
    {
        let rotations = shape_rotations(shape);
        Tetromino { shape, rotation: 0, rotations }
    }

    /// Advances the piece to its next orientation.
    pub fn rotate(&mut self)
        requires
            old(self).wf(),
        ensures
            final(self).wf(),
            final(self).spec_shape() == old(self).spec_shape(),
            final(self).spec_rotation() == (old(self).spec_rotation() + 1) % 4,
            final(self).spec_rotations() == old(self).spec_rotations(),
    {
        self.rotation = (self.rotation + 1) % 4;
    }

    /// The whole orientation table.
    pub fn rotations(&self) -> (r: &Rotations)
        ensures
            r@.map_values(|rot: Rotation| rot@) == self.spec_rotations(),
    {
        &self.rotations
    }

    /// The cell offsets of the current orientation.
    pub fn current_rotation(&self) -> (r: &Rotation)
        requires
            self.wf(),
        ensures
            r@ == self.spec_cells(),
    {
        proof {
            let i = self.rotation as int;
            assert(self.spec_rotations()[i] == self.rotations@[i]@);
        }
        &self.rotations[self.rotation]
    }
}

/// Every orientation of every shape has four cells and starts at the origin.
pub proof fn lemma_rotation_shape(shape: Shape, i: int)
    requires
        0 <= i < 4,
    ensures
        rotations_spec(shape)[i].len() == 4,
        rotations_spec(shape)[i][0] == (0isize, 0isize),
{
}

/// The flat index of the cell in column `x` of row `y`.
pub open spec fn cell_index(x: int, y: int) -> int {
    y * (GRID_WIDTH as int) + x
}

/// A well-formed flat cell sequence covers the whole grid.
pub open spec fn cells_wf(cells: Seq<BlockStatus>) -> bool {
    cells.len() == GRID_WIDTH * GRID_HEIGHT
}

/// Whether offset `k` of a piece placed at `pos` lands on a free cell of
/// the grid.
pub open spec fn cell_free(
    cells: Seq<BlockStatus>,
    offsets: Seq<(isize, isize)>,
    pos: (isize, isize),
    k: int,
) -> bool {
    let cx = pos.0 as int + offsets[k].0 as int;
    let cy = pos.1 as int + offsets[k].1 as int;
    &&& 0 <= cx < GRID_WIDTH as int
    &&& 0 <= cy < GRID_HEIGHT as int
    &&& cells[cell_index(cx, cy)] == BlockStatus::Empty
}

/// Whether a piece with the given cell offsets can be placed at `pos`:
/// every cell lands inside the grid, on an empty cell.
pub open spec fn can_place_cells(
    cells: Seq<BlockStatus>,
    offsets: Seq<(isize, isize)>,
    pos: (isize, isize),
) -> bool {
    forall|k: int| 0 <= k < offsets.len() ==> cell_free(cells, offsets, pos, k)
}

/// Whether one of the first `n` offsets of a piece placed at `pos` lands on
/// flat index `i`.
pub open spec fn covered_index_upto(
    offsets: Seq<(isize, isize)>,
    pos: (isize, isize),
    i: int,
    n: int,
) -> bool {
    exists|k: int|
        0 <= k < n && i == cell_index(
            pos.0 as int + offsets[k].0 as int,
            pos.1 as int + offsets[k].1 as int,
        )
}

/// Whether any cell of a piece placed at `pos` lands on flat index `i`.
pub open spec fn covered_index(offsets: Seq<(isize, isize)>, pos: (isize, isize), i: int) -> bool {
    covered_index_upto(offsets, pos, i, offsets.len() as int)
}

/// The grid cells after fixing a piece at `pos`: its cells become occupied,
/// everything else is untouched.
pub open spec fn fixed_cells(
    cells: Seq<BlockStatus>,
    offsets: Seq<(isize, isize)>,
    pos: (isize, isize),
) -> Seq<BlockStatus> {
    Seq::new(
        cells.len(),
        |i: int|
            if covered_index(offsets, pos, i) {
                BlockStatus::Occupied
            } else {
                cells[i]
            },
    )
}

/// Whether row `y` is completely occupied.
pub open spec fn row_complete(cells: Seq<BlockStatus>, y: int) -> bool {
    forall|x: int| 0 <= x < GRID_WIDTH as int ==> cells[cell_index(x, y)] == BlockStatus::Occupied
}

/// The indices of the complete rows among the first `n`, ascending.
pub open spec fn complete_rows_upto(cells: Seq<BlockStatus>, n: int) -> Seq<usize>
    decreases n,
{
    if n <= 0 {
        Seq::empty()
    } else {
        complete_rows_upto(cells, n - 1) + if row_complete(cells, n - 1) {
            seq![(n - 1) as usize]
        } else {
            Seq::<usize>::empty()
        }
    }
}

/// The cells of row `y`.
pub open spec fn row_at(cells: Seq<BlockStatus>, y: int) -> Seq<BlockStatus> {
    cells.subrange(y * (GRID_WIDTH as int), y * (GRID_WIDTH as int) + (GRID_WIDTH as int))
}

/// Whether the row indices are listed in strictly ascending order.
pub open spec fn strictly_ascending(rows: Seq<usize>) -> bool {
    forall|i: int, j: int| 0 <= i < j < rows.len() ==> rows[i] < rows[j]
}

/// The cells of the first `n` rows whose indices are not listed in `rows`,
/// in their original order.
pub open spec fn kept_rows(cells: Seq<BlockStatus>, rows: Seq<usize>, n: int) -> Seq<BlockStatus>
    decreases n,
{
    if n <= 0 {
        Seq::empty()
    } else {
        kept_rows(cells, rows, n - 1) + if rows.contains(((n - 1) as usize)) {
            Seq::<BlockStatus>::empty()
        } else {
            row_at(cells, n - 1)
        }
    }
}

/// The grid cells after clearing the listed rows: one fresh empty row per
/// cleared row at the top, then every row not listed, in its original
/// order. The cleared rows' contents are discarded.
pub open spec fn cleared_cells(cells: Seq<BlockStatus>, rows: Seq<usize>) -> Seq<BlockStatus> {
    Seq::new((rows.len() * (GRID_WIDTH as int)) as nat, |i: int| BlockStatus::Empty) + kept_rows(
        cells,
        rows,
        GRID_HEIGHT as int,
    )
}

/// How many of the listed row indices lie below `n`.
pub open spec fn count_less(rows: Seq<usize>, n: int) -> int
    decreases rows.len(),
{
    if rows.len() == 0 {
        0
    } else {
        count_less(rows.drop_last(), n) + if (rows.last() as int) < n {
            1int
        } else {
            0int
        }
    }
}

/// The playing field.
pub struct Grid {
    grid_blocks: Vec<BlockStatus>,
}

impl Grid {
    /// The cells of the grid, row-major, top row first.
    pub closed spec fn cells(self) -> Seq<BlockStatus> {
        self.grid_blocks@
    }

    /// The cells cover the whole grid.
    pub open spec fn wf(self) -> bool {
        cells_wf(self.cells())
    }

    /// The cell in column `x` of row `y`.
    pub open spec fn cell_at(self, x: int, y: int) -> BlockStatus {
        self.cells()[cell_index(x, y)]
    }

    /// Whether the piece can be placed at `pos`.
    pub open spec fn can_place(self, t: Tetromino, pos: (isize, isize)) -> bool {
        can_place_cells(self.cells(), t.spec_cells(), pos)
    }

    /// A new grid in which every cell is empty.
    pub fn new() -> (r: Grid)
        ensures
            r.wf(),
            forall|i: int| 0 <= i < r.cells().len() ==> r.cells()[i] == BlockStatus::Empty,
    {
        Grid { grid_blocks: vec![BlockStatus::Empty; GRID_WIDTH * GRID_HEIGHT] }
    }

    /// Whether the tetromino can be placed at the given position: every cell
    /// of its current orientation must land inside the grid on an empty
    /// cell.
    pub fn place_piece(&self, tetromino: &Tetromino, position: (isize, isize)) -> (r: bool)
        requires
            self.wf(),
            tetromino.wf(),
        ensures
            r == self.can_place(*tetromino, position),
    {
        let rotation = tetromino.current_rotation();
        let mut k: usize = 0;
        while k < 4
            invariant
                k <= 4,
                self.wf(),
                tetromino.wf(),
                rotation@ == tetromino.spec_cells(),
                tetromino.spec_cells().len() == 4,
                forall|j: int| 0 <= j < k ==> cell_free(self.cells(), tetromino.spec_cells(), position, j),
            decreases 4 - k,
        {
            let offset = rotation[k];
            proof {
                assert(offset == tetromino.spec_cells()[k as int]);
            }
            let cell_x: i128 = position.0 as i128 + offset.0 as i128;
            let cell_y: i128 = position.1 as i128 + offset.1 as i128;
            if cell_y < 0 || cell_y >= GRID_HEIGHT as i128 || cell_x < 0 || cell_x
                >= GRID_WIDTH as i128 {
                assert(!cell_free(self.cells(), tetromino.spec_cells(), position, k as int));
                return false;
            }
            let index: usize = (cell_y as usize) * GRID_WIDTH + (cell_x as usize);
            proof {
                assert(index as int == cell_index(cell_x as int, cell_y as int));
            }
            if self.grid_blocks[index] == BlockStatus::Occupied {
                assert(!cell_free(self.cells(), tetromino.spec_cells(), position, k as int));
                return false;
            }
            assert(cell_free(self.cells(), tetromino.spec_cells(), position, k as int));
            k = k + 1;
        }
        true
    }

    /// Fixes the tetromino to the grid, marking the cells of its current
    /// orientation as occupied. The piece must fit where it stands, which
    /// the caller has established by moving it only through valid positions.
    pub fn fix_piece(&mut self, tetromino: &Tetromino, position: (isize, isize))
        requires
            old(self).wf(),
            tetromino.wf(),
            old(self).can_place(*tetromino, position),
        ensures
            final(self).wf(),
            final(self).cells() == fixed_cells(old(self).cells(), tetromino.spec_cells(), position),
    {
        let rotation = tetromino.current_rotation();
        let mut k: usize = 0;
        while k < 4
            invariant
                k <= 4,
                tetromino.wf(),
                rotation@ == tetromino.spec_cells(),
                old(self).wf(),
                old(self).can_place(*tetromino, position),
                self.cells().len() == old(self).cells().len(),
                tetromino.spec_cells().len() == 4,
                forall|i: int|
                    0 <= i < self.cells().len() ==> self.cells()[i] == (if covered_index_upto(
                        tetromino.spec_cells(),
                        position,
                        i,
                        k as int,
                    ) {
                        BlockStatus::Occupied
                    } else {
                        old(self).cells()[i]
                    }),
            decreases 4 - k,
        {
            let ghost pre = self.cells();
            let (x, y) = rotation[k];
            assert(cell_free(old(self).cells(), tetromino.spec_cells(), position, k as int));
            let cell_x: usize = ((position.0 as i128 + x as i128) as usize);
            let cell_y: usize = ((position.1 as i128 + y as i128) as usize);
            let index: usize = cell_y * GRID_WIDTH + cell_x;
            self.grid_blocks[index] = BlockStatus::Occupied;
            proof {
                assert(self.cells() =~= pre.update(index as int, BlockStatus::Occupied));
                assert forall|i: int| 0 <= i < self.cells().len() implies self.cells()[i] == (
                if covered_index_upto(tetromino.spec_cells(), position, i, k as int + 1) {
                    BlockStatus::Occupied
                } else {
                    old(self).cells()[i]
                }) by {
                    if i == index {
                        assert(covered_index_upto(tetromino.spec_cells(), position, i, k as int + 1));
                    } else {
                        if covered_index_upto(tetromino.spec_cells(), position, i, k as int + 1) {
                            let w = choose|w: int|
                                0 <= w < k as int + 1 && i == cell_index(
                                    position.0 as int + tetromino.spec_cells()[w].0 as int,
                                    position.1 as int + tetromino.spec_cells()[w].1 as int,
                                );
                            assert(w < k as int);
                            assert(covered_index_upto(tetromino.spec_cells(), position, i, k as int));
                        } else {
                            assert(!covered_index_upto(tetromino.spec_cells(), position, i, k as int));
                        }
                    }
                }
            }
            k = k + 1;
        }
        proof {
            assert(final(self).cells() =~= fixed_cells(old(self).cells(), tetromino.spec_cells(), position));
        }
    }

    /// The indices of the rows that are completely occupied, in ascending
    /// order.
    pub fn check_complete_rows(&self) -> (r: Vec<usize>)
        requires
            self.wf(),
        ensures
            r@ == complete_rows_upto(self.cells(), GRID_HEIGHT as int),
    {
        let mut complete: Vec<usize> = Vec::new();
        let mut y: usize = 0;
        while y < GRID_HEIGHT
            invariant
                y <= GRID_HEIGHT,
                self.wf(),
                complete@ == complete_rows_upto(self.cells(), y as int),
            decreases GRID_HEIGHT - y,
        {
            if self.row_is_complete(y) {
                complete.push(y);
            }
            y = y + 1;
        }
        complete
    }

    /// Whether row `y` is completely occupied.
    fn row_is_complete(&self, y: usize) -> (r: bool)
        requires
            self.wf(),
            y < GRID_HEIGHT,
        ensures
            r == row_complete(self.cells(), y as int),
    {
        let mut x: usize = 0;
        while x < GRID_WIDTH
            invariant
                x <= GRID_WIDTH,
                y < GRID_HEIGHT,
                self.wf(),
                forall|j: int|
                    0 <= j < x ==> self.cells()[cell_index(j, y as int)] == BlockStatus::Occupied,
            decreases GRID_WIDTH - x,
        {
            let index: usize = y * GRID_WIDTH + x;
            proof {
                assert(index as int == cell_index(x as int, y as int));
            }
            if self.grid_blocks[index] == BlockStatus::Empty {
                assert(!row_complete(self.cells(), y as int));
                return false;
            }
            x = x + 1;
        }
        true
    }

    /// A grid with exactly these cells, row-major; anything of the wrong
    /// size is refused.
    pub fn from_cells(cells: Vec<BlockStatus>) -> (r: Option<Grid>)
        ensures
            cells@.len() == GRID_WIDTH * GRID_HEIGHT ==> (r matches Some(grid) && grid.wf()
                && grid.cells() == cells@),
            cells@.len() != GRID_WIDTH * GRID_HEIGHT ==> r is None,
    {
        if cells.len() == GRID_WIDTH * GRID_HEIGHT {
            Some(Grid { grid_blocks: cells })
        } else {
            None
        }
    }

    /// The cell in column `x` of row `y`.
    pub fn cell(&self, x: usize, y: usize) -> (r: BlockStatus)
        requires
            self.wf(),
            x < GRID_WIDTH,
            y < GRID_HEIGHT,
        ensures
            r == self.cell_at(x as int, y as int),
    {
        self.grid_blocks[y * GRID_WIDTH + x]
    }

    /// Clears the listed rows and shifts the rows above each of them down:
    /// the cleared rows' contents are discarded, every other row keeps its
    /// contents and its relative order, and one fresh empty row per cleared
    /// row appears at the top. The indices arrive sorted low to high, as
    /// `check_complete_rows` produces them.
    pub fn clear_and_shift_rows(&mut self, rows: Vec<usize>)
        requires
            old(self).wf(),
            strictly_ascending(rows@),
            forall|i: int| 0 <= i < rows@.len() ==> rows@[i] < GRID_HEIGHT,
        ensures
            final(self).wf(),
            final(self).cells() == cleared_cells(old(self).cells(), rows@),
    {
        proof {
            lemma_ascending_bounded_len(rows@, GRID_HEIGHT as int);
        }
        let ghost empties = Seq::new(
            (rows@.len() * (GRID_WIDTH as int)) as nat,
            |i: int| BlockStatus::Empty,
        );
        let empty_count = rows.len() * GRID_WIDTH;
        let mut new_cells: Vec<BlockStatus> = Vec::new();
        let mut e: usize = 0;
        while e < empty_count
            invariant
                e <= empty_count,
                empty_count == rows@.len() * GRID_WIDTH,
                new_cells@ == Seq::new(e as nat, |i: int| BlockStatus::Empty),
            decreases empty_count - e,
        {
            new_cells.push(BlockStatus::Empty);
            proof {
                assert(new_cells@ =~= Seq::new((e + 1) as nat, |i: int| BlockStatus::Empty));
            }
            e = e + 1;
        }
        proof {
            assert(new_cells@ =~= empties);
            assert(kept_rows(self.cells(), rows@, 0) =~= Seq::<BlockStatus>::empty());
            assert(new_cells@ =~= empties + kept_rows(self.cells(), rows@, 0));
        }
        let mut y: usize = 0;
        while y < GRID_HEIGHT
            invariant
                y <= GRID_HEIGHT,
                old(self).wf(),
                self.cells() == old(self).cells(),
                new_cells@ == empties + kept_rows(self.cells(), rows@, y as int),
                empties == Seq::new(
                    (rows@.len() * (GRID_WIDTH as int)) as nat,
                    |i: int| BlockStatus::Empty,
                ),
            decreases GRID_HEIGHT - y,
        {
            if !contains_row(&rows, y) {
                let ghost before_row = new_cells@;
                let mut x: usize = 0;
                while x < GRID_WIDTH
                    invariant
                        x <= GRID_WIDTH,
                        y < GRID_HEIGHT,
                        old(self).wf(),
                        self.cells() == old(self).cells(),
                        new_cells@ == before_row + self.cells().subrange(
                            (y * GRID_WIDTH) as int,
                            (y * GRID_WIDTH + x) as int,
                        ),
                    decreases GRID_WIDTH - x,
                {
                    new_cells.push(self.grid_blocks[y * GRID_WIDTH + x]);
                    proof {
                        assert(self.cells().subrange(
                            (y * GRID_WIDTH) as int,
                            (y * GRID_WIDTH + x + 1) as int,
                        ) =~= self.cells().subrange(
                            (y * GRID_WIDTH) as int,
                            (y * GRID_WIDTH + x) as int,
                        ).push(self.cells()[(y * GRID_WIDTH + x) as int]));
                    }
                    x = x + 1;
                }
                proof {
                    assert(new_cells@ =~= empties + (kept_rows(self.cells(), rows@, y as int)
                        + row_at(self.cells(), y as int)));
                    assert(new_cells@ =~= empties + kept_rows(
                        self.cells(),
                        rows@,
                        y as int + 1,
                    ));
                }
            } else {
                proof {
                    assert(kept_rows(self.cells(), rows@, y as int + 1) =~= kept_rows(
                        self.cells(),
                        rows@,
                        y as int,
                    ));
                }
            }
            y = y + 1;
        }
        proof {
            lemma_kept_rows_len(self.cells(), rows@, GRID_HEIGHT as int);
            lemma_count_less_all(rows@, GRID_HEIGHT as int);
            assert(new_cells@ =~= cleared_cells(old(self).cells(), rows@));
        }
        self.grid_blocks = new_cells;
    }
}

/// Whether a row index appears in the list.
fn contains_row(rows: &Vec<usize>, y: usize) -> (r: bool)
    ensures
        r == rows@.contains(y),
{
    let mut i: usize = 0;
    while i < rows.len()
        invariant
            i <= rows@.len(),
            forall|j: int| 0 <= j < i ==> rows@[j] != y,
        decreases rows@.len() - i,
    {
        if rows[i] == y {
            return true;
        }
        i = i + 1;
    }
    false
}

/// Row indices listed in ascending order grow at least as fast as their
/// positions.
proof fn lemma_ascending_ge(rows: Seq<usize>, i: int)
    requires
        strictly_ascending(rows),
        0 <= i < rows.len(),
    ensures
        rows[i] as int >= i,
    decreases i,
{
    if i > 0 {
        lemma_ascending_ge(rows, i - 1);
    }
}

/// An ascending list of row indices below a bound has at most that many
/// entries.
pub proof fn lemma_ascending_bounded_len(rows: Seq<usize>, bound: int)
    requires
        strictly_ascending(rows),
        forall|i: int| 0 <= i < rows.len() ==> (rows[i] as int) < bound,
        bound >= 0,
    ensures
        rows.len() <= bound,
{
    if rows.len() > 0 {
        lemma_ascending_ge(rows, rows.len() - 1);
    }
}

/// No row index lies below zero.
proof fn lemma_count_less_zero(rows: Seq<usize>)
    ensures
        count_less(rows, 0) == 0,
    decreases rows.len(),
{
    if rows.len() > 0 {
        lemma_count_less_zero(rows.drop_last());
    }
}

/// Raising the bound past one more index counts that index exactly when the
/// list holds it.
proof fn lemma_count_step(rows: Seq<usize>, v: usize)
    requires
        strictly_ascending(rows),
    ensures
        count_less(rows, v as int + 1) == count_less(rows, v as int) + (if rows.contains(v) {
            1int
        } else {
            0int
        }),
    decreases rows.len(),
{
    if rows.len() == 0 {
        assert(!rows.contains(v)) by {
            if rows.contains(v) {
                let j = choose|j: int| 0 <= j < rows.len() && rows[j] == v;
            }
        }
    } else {
        let prefix = rows.drop_last();
        assert(strictly_ascending(prefix)) by {
            assert(forall|i: int| 0 <= i < prefix.len() ==> prefix[i] == rows[i]);
        }
        lemma_count_step(prefix, v);
        if rows.last() == v {
            assert(!prefix.contains(v)) by {
                if prefix.contains(v) {
                    let j = choose|j: int| 0 <= j < prefix.len() && prefix[j] == v;
                    assert(rows[j] < rows[rows.len() - 1]);
                }
            }
            assert(rows.contains(v)) by {
                assert(rows[rows.len() - 1] == v);
            }
        } else {
            assert(rows.contains(v) == prefix.contains(v)) by {
                if rows.contains(v) {
                    let j = choose|j: int| 0 <= j < rows.len() && rows[j] == v;
                    assert(j < rows.len() - 1);
                    assert(prefix[j] == v);
                }
                if prefix.contains(v) {
                    let j = choose|j: int| 0 <= j < prefix.len() && prefix[j] == v;
                    assert(rows[j] == v);
                }
            }
        }
    }
}

/// With every listed index below the bound, the count below it is the whole
/// list.
proof fn lemma_count_less_all(rows: Seq<usize>, n: int)
    requires
        forall|i: int| 0 <= i < rows.len() ==> (rows[i] as int) < n,
    ensures
        count_less(rows, n) == rows.len(),
    decreases rows.len(),
{
    if rows.len() > 0 {
        let prefix = rows.drop_last();
        assert(forall|i: int| 0 <= i < prefix.len() ==> prefix[i] == rows[i]);
        lemma_count_less_all(prefix, n);
    }
}

/// The kept rows cover exactly the unlisted indices: ten cells per row not
/// counted below the bound.
proof fn lemma_kept_rows_len(cells: Seq<BlockStatus>, rows: Seq<usize>, n: int)
    requires
        cells_wf(cells),
        strictly_ascending(rows),
        0 <= n <= GRID_HEIGHT,
    ensures
        kept_rows(cells, rows, n).len() == (n - count_less(rows, n)) * (GRID_WIDTH as int),
    decreases n,
{
    if n == 0 {
        lemma_count_less_zero(rows);
    } else {
        lemma_kept_rows_len(cells, rows, n - 1);
        lemma_count_step(rows, (n - 1) as usize);
    }
}

/// A piece whose first offset is the origin can only stand where that
/// origin cell is inside the grid.
pub proof fn lemma_place_position_bounds(
    cells: Seq<BlockStatus>,
    offsets: Seq<(isize, isize)>,
    pos: (isize, isize),
)
    requires
        offsets.len() > 0,
        offsets[0] == (0isize, 0isize),
        can_place_cells(cells, offsets, pos),
    ensures
        0 <= (pos.0 as int) < (GRID_WIDTH as int),
        0 <= (pos.1 as int) < (GRID_HEIGHT as int),
{
    assert(cell_free(cells, offsets, pos, 0));
}

/// Every complete row index lies below the scanned bound.
pub proof fn lemma_complete_rows_bounded(cells: Seq<BlockStatus>, n: int)
    ensures
        forall|i: int|
            0 <= i < complete_rows_upto(cells, n).len() ==> (complete_rows_upto(cells, n)[i] as int)
                < n,
    decreases n,
{
    if n <= 0 {
    } else {
        lemma_complete_rows_bounded(cells, n - 1);
        let prefix = complete_rows_upto(cells, n - 1);
        assert forall|i: int|
            0 <= i < complete_rows_upto(cells, n).len() implies (complete_rows_upto(
            cells,
            n,
        )[i] as int) < n by {
            if i < prefix.len() {
                assert(complete_rows_upto(cells, n)[i] == prefix[i]);
            }
        }
    }
}

/// Every complete row among the first `n` is reported.
proof fn lemma_complete_rows_member(cells: Seq<BlockStatus>, n: int, y: int)
    requires
        0 <= y < n,
        n <= GRID_HEIGHT,
        row_complete(cells, y),
    ensures
        complete_rows_upto(cells, n).contains((y as usize)),
    decreases n,
{
    let whole = complete_rows_upto(cells, n);
    if y == n - 1 {
        assert(whole[whole.len() - 1] == (y as usize));
    } else {
        lemma_complete_rows_member(cells, n - 1, y);
        let prefix = complete_rows_upto(cells, n - 1);
        let i = choose|i: int| 0 <= i < prefix.len() && prefix[i] == (y as usize);
        assert(whole[i] == (y as usize));
    }
}

/// Whether aligned row `m` of a row-major cell sequence holds an empty
/// cell.
pub open spec fn chunk_has_empty(cells: Seq<BlockStatus>, m: int) -> bool {
    exists|x: int|
        0 <= x < GRID_WIDTH as int && #[trigger] cells[m * (GRID_WIDTH as int) + x]
            == BlockStatus::Empty
}

/// Every ten-cell chunk of the kept rows carries an empty cell, provided
/// every unlisted row among the first `n` has one.
proof fn lemma_kept_rows_chunks(cells: Seq<BlockStatus>, rows: Seq<usize>, n: int)
    requires
        cells_wf(cells),
        strictly_ascending(rows),
        0 <= n <= GRID_HEIGHT,
        forall|y: int|
            0 <= y < n && !rows.contains((y as usize)) ==> !row_complete(cells, y),
    ensures
        forall|m: int|
            0 <= m && m * (GRID_WIDTH as int) < kept_rows(cells, rows, n).len()
                ==> #[trigger] chunk_has_empty(kept_rows(cells, rows, n), m),
    decreases n,
{
    if n <= 0 {
    } else {
        lemma_kept_rows_chunks(cells, rows, n - 1);
        lemma_kept_rows_len(cells, rows, n - 1);
        let w = GRID_WIDTH as int;
        let prev = kept_rows(cells, rows, n - 1);
        let whole = kept_rows(cells, rows, n);
        let chunks = (n - 1) - count_less(rows, n - 1);
        assert(prev.len() == chunks * w);
        if rows.contains(((n - 1) as usize)) {
            assert(whole =~= prev);
        } else {
            assert(whole == prev + row_at(cells, n - 1));
            assert(!row_complete(cells, n - 1));
            let bad = choose|x: int|
                !(0 <= x < w ==> #[trigger] cells[cell_index(x, n - 1)] == BlockStatus::Occupied);
            assert(cells[cell_index(bad, n - 1)] == BlockStatus::Empty);
            assert forall|m: int| 0 <= m && m * w < whole.len() implies #[trigger] chunk_has_empty(
                whole,
                m,
            ) by {
                if m * w < prev.len() {
                    assert(m < chunks);
                    assert((m + 1) * w <= chunks * w);
                    assert(chunk_has_empty(prev, m));
                    let x = choose|x: int| 0 <= x < w && #[trigger] prev[m * w + x] == BlockStatus::Empty;
                    assert(whole[m * w + x] == prev[m * w + x]);
                } else {
                    assert(m * w == prev.len());
                    assert(row_at(cells, n - 1)[bad] == cells[cell_index(bad, n - 1)]);
                    assert(whole[m * w + bad] == row_at(cells, n - 1)[bad]);
                }
            }
        }
    }
}

/// Clearing every currently complete row leaves no complete row: the fresh
/// top rows are empty, and every kept row already had an empty cell.
pub proof fn lemma_clearing_complete_rows(cells: Seq<BlockStatus>)
    requires
        cells_wf(cells),
    ensures
        ({
            let rows = complete_rows_upto(cells, GRID_HEIGHT as int);
            forall|y: int|
                0 <= y < GRID_HEIGHT ==> !row_complete(cleared_cells(cells, rows), y)
        }),
{
    let h = GRID_HEIGHT as int;
    let w = GRID_WIDTH as int;
    let rows = complete_rows_upto(cells, h);
    lemma_complete_rows_ascending(cells, h);
    lemma_complete_rows_bounded(cells, h);
    lemma_ascending_bounded_len(rows, h);
    assert forall|y: int| 0 <= y < h && !rows.contains((y as usize)) implies !row_complete(
        cells,
        y,
    ) by {
        if row_complete(cells, y) {
            lemma_complete_rows_member(cells, h, y);
        }
    }
    lemma_kept_rows_chunks(cells, rows, h);
    lemma_kept_rows_len(cells, rows, h);
    lemma_count_less_all(rows, h);
    let k = rows.len() as int;
    let kept = kept_rows(cells, rows, h);
    let result = cleared_cells(cells, rows);
    assert(kept.len() == (h - k) * w);
    assert(result.len() == k * w + (h - k) * w);
    assert forall|y: int| 0 <= y < h implies !row_complete(result, y) by {
        if y < k {
            assert(cell_index(0, y) < k * w);
            assert(result[cell_index(0, y)] == BlockStatus::Empty);
        } else {
            let m = y - k;
            assert(m * w < kept.len());
            assert(chunk_has_empty(kept, m));
            let x = choose|x: int| 0 <= x < w && #[trigger] kept[m * w + x] == BlockStatus::Empty;
            assert(cell_index(x, y) == k * w + (m * w + x));
            assert(result[cell_index(x, y)] == kept[m * w + x]);
        }
    }
}

/// Complete rows are reported in strictly ascending order.
pub proof fn lemma_complete_rows_ascending(cells: Seq<BlockStatus>, n: int)
    requires
        n <= GRID_HEIGHT,
    ensures
        strictly_ascending(complete_rows_upto(cells, n)),
    decreases n,
{
    if n <= 0 {
    } else {
        lemma_complete_rows_ascending(cells, n - 1);
        lemma_complete_rows_bounded(cells, n - 1);
        let prefix = complete_rows_upto(cells, n - 1);
        let whole = complete_rows_upto(cells, n);
        if row_complete(cells, n - 1) {
            assert(whole == prefix + seq![(n - 1) as usize]);
            assert forall|i: int, j: int| 0 <= i < j < whole.len() implies whole[i] < whole[j] by {
                assert(whole[i] == prefix[i]);
                if j < prefix.len() {
                    assert(whole[j] == prefix[j]);
                } else {
                    assert(j == prefix.len());
                    assert(whole[j] == (n - 1) as usize);
                    assert((prefix[i] as int) < n - 1);
                }
            }
        } else {
            assert(whole =~= prefix);
        }
    }
}

/// The row in which a piece falling straight down from row `y` comes to
/// rest: the last row of the unbroken run of placeable rows starting at
/// `y`.
pub open spec fn fall_y(
    cells: Seq<BlockStatus>,
    offsets: Seq<(isize, isize)>,
    x: isize,
    y: int,
) -> int
    decreases GRID_HEIGHT as int - y,
    when y <= GRID_HEIGHT as int
{
    if y >= GRID_HEIGHT as int {
        y
    } else if can_place_cells(cells, offsets, (x, ((y + 1) as isize))) {
        fall_y(cells, offsets, x, y + 1)
    } else {
        y
    }
}

/// What the player asked the game to do.
#[derive(Clone, Copy, Debug)]
enum PlayerAction {
    MoveLeft,
    MoveRight,
    MoveDown,
    Drop,
    Rotate,
    Pause,
    Restart,
}

/// The player's next request. Input handling is not wired up: the game
/// currently always advances the falling piece one row.
fn get_player_input() -> (r: PlayerAction)
    ensures
        r == PlayerAction::MoveDown,
{
    PlayerAction::MoveDown
}

/// A running game: the settled grid, the falling piece and the score.
pub struct Game {
    grid: Grid,
    score: usize,
    piece: Tetromino,
    position: (isize, isize),
    paused: bool,
}

impl Game {
    /// The grid covers the playing field, the piece's orientation table is
    /// intact and the piece's origin is inside the grid.
    pub open spec fn wf(self) -> bool {
        &&& self.spec_grid().wf()
        &&& self.spec_piece().wf()
        &&& 0 <= (self.spec_position().0 as int) < (GRID_WIDTH as int)
        &&& 0 <= (self.spec_position().1 as int) < (GRID_HEIGHT as int)
    }

    /// The settled grid.
    pub closed spec fn spec_grid(self) -> Grid {
        self.grid
    }

    /// The score.
    pub closed spec fn spec_score(self) -> int {
        self.score as int
    }

    /// The falling piece.
    pub closed spec fn spec_piece(self) -> Tetromino {
        self.piece
    }

    /// The grid position of the falling piece's origin cell.
    pub closed spec fn spec_position(self) -> (isize, isize) {
        self.position
    }

    /// Whether the game is paused.
    pub closed spec fn spec_paused(self) -> bool {
        self.paused
    }

    /// Whether the falling piece may move by `(dx, dy)`: the game is
    /// running and the piece fits at the new position.
    pub open spec fn move_allowed(self, dx: int, dy: int) -> bool {
        &&& !self.spec_paused()
        &&& can_place_cells(
            self.spec_grid().cells(),
            self.spec_piece().spec_cells(),
            (
                ((self.spec_position().0 as int + dx) as isize),
                ((self.spec_position().1 as int + dy) as isize),
            ),
        )
    }

    /// Whether the falling piece may advance to its next orientation: the
    /// game is running and the rotated piece fits where it stands.
    pub open spec fn rotation_allowed(self) -> bool {
        &&& !self.spec_paused()
        &&& can_place_cells(
            self.spec_grid().cells(),
            rotations_spec(self.spec_piece().spec_shape())[
                (self.spec_piece().spec_rotation() + 1) % 4
            ],
            self.spec_position(),
        )
    }

    /// A fresh game: an empty grid, score zero, and a new piece at the top
    /// of the field.
    pub fn new() -> (r: Game)
        ensures
            r.wf(),
            r.spec_score() == 0,
            !r.spec_paused(),
            forall|i: int|
                0 <= i < r.spec_grid().cells().len() ==> r.spec_grid().cells()[i]
                    == BlockStatus::Empty,
            r.spec_piece().spec_shape() == Shape::I,
            r.spec_piece().spec_rotation() == 0,
            r.spec_position() == (4isize, 1isize),
    {
        Game {
            grid: Grid::new(),
            score: 0,
            piece: Tetromino::new(Shape::I),
            position: (4, 1),
            paused: false,
        }
    }

    /// Moves the falling piece by `(dx, dy)` if the game is running and the
    /// piece fits there; otherwise nothing changes.
    fn move_tetromino(&mut self, dx: isize, dy: isize)
        requires
            old(self).wf(),
            -1 <= dx <= 1,
            -1 <= dy <= 1,
        ensures
            final(self).wf(),
            final(self).spec_grid() == old(self).spec_grid(),
            final(self).spec_score() == old(self).spec_score(),
            final(self).spec_paused() == old(self).spec_paused(),
            final(self).spec_piece() == old(self).spec_piece(),
            old(self).move_allowed(dx as int, dy as int) ==> final(self).spec_position() == (
                ((old(self).spec_position().0 as int + dx as int) as isize),
                ((old(self).spec_position().1 as int + dy as int) as isize),
            ),
            !old(self).move_allowed(dx as int, dy as int) ==> final(self).spec_position() == old(self).spec_position(),
    {
        if self.paused {
            return ;
        }
        let next = (self.position.0 + dx, self.position.1 + dy);
        if self.grid.place_piece(&self.piece, next) {
            proof {
                lemma_rotation_shape(self.piece.spec_shape(), self.piece.spec_rotation());
                lemma_place_position_bounds(self.grid.cells(), self.piece.spec_cells(), next);
            }
            self.position = next;
        }
    }

    /// Advances the falling piece to its next orientation if the game is
    /// running and the rotated piece fits; otherwise nothing changes.
    fn rotate_tetromino(&mut self)
        requires
            old(self).wf(),
        ensures
            final(self).wf(),
            final(self).spec_grid() == old(self).spec_grid(),
            final(self).spec_score() == old(self).spec_score(),
            final(self).spec_paused() == old(self).spec_paused(),
            final(self).spec_position() == old(self).spec_position(),
            old(self).rotation_allowed() ==> final(self).spec_piece().wf() && final(self).spec_piece().spec_shape() == old(self).spec_piece().spec_shape() && final(self).spec_piece().spec_rotation() == (old(self).spec_piece().spec_rotation() + 1) % 4,
            !old(self).rotation_allowed() ==> final(self).spec_piece().wf() && final(self).spec_piece().spec_shape() == old(self).spec_piece().spec_shape() && final(self).spec_piece().spec_rotation() == old(self).spec_piece().spec_rotation() && final(self).spec_piece().spec_rotations() == old(self).spec_piece().spec_rotations(),
    {
        if self.paused {
            return ;
        }
        let ghost r0 = self.piece.spec_rotation();
        self.piece.rotate();
        if self.grid.place_piece(&self.piece, self.position) {
            return ;
        }
        self.piece.rotate();
        self.piece.rotate();
        self.piece.rotate();
        proof {
            assert(self.piece.spec_rotation() == r0) by {
                assert(0 <= r0 < 4);
            }
        }
    }

    /// Drops the falling piece straight down as far as it fits, settles it
    /// there, clears every completed row, scores one point per cleared row
    /// and spawns a fresh piece of the same shape at the top. Paused games,
    /// and pieces that do not even fit where they stand, are left alone.
    fn drop_tetromino(&mut self)
        requires
            old(self).wf(),
        ensures
            final(self).wf(),
            old(self).spec_paused() ==> *final(self) == *old(self),
            (!old(self).spec_paused() && !can_place_cells(
                old(self).spec_grid().cells(),
                old(self).spec_piece().spec_cells(),
                old(self).spec_position(),
            )) ==> *final(self) == *old(self),
            (!old(self).spec_paused() && can_place_cells(
                old(self).spec_grid().cells(),
                old(self).spec_piece().spec_cells(),
                old(self).spec_position(),
            )) ==> ({
                let rest = fall_y(
                    old(self).spec_grid().cells(),
                    old(self).spec_piece().spec_cells(),
                    old(self).spec_position().0,
                    old(self).spec_position().1 as int,
                );
                let fixed = fixed_cells(
                    old(self).spec_grid().cells(),
                    old(self).spec_piece().spec_cells(),
                    (old(self).spec_position().0, (rest as isize)),
                );
                let rows = complete_rows_upto(fixed, GRID_HEIGHT as int);
                &&& final(self).spec_grid().cells() == cleared_cells(fixed, rows)
                &&& final(self).spec_score() == (if old(self).spec_score() + rows.len()
                    <= usize::MAX {
                    old(self).spec_score() + rows.len()
                } else {
                    old(self).spec_score()
                })
                &&& final(self).spec_piece().wf()
                &&& final(self).spec_piece().spec_shape() == old(self).spec_piece().spec_shape()
                &&& final(self).spec_piece().spec_rotation() == 0
                &&& final(self).spec_position() == (4isize, 1isize)
                &&& final(self).spec_paused() == false
            }),
    {
        if self.paused {
            return ;
        }
        if !self.grid.place_piece(&self.piece, self.position) {
            return ;
        }
        let x = self.position.0;
        let mut y: isize = self.position.1;
        while self.grid.place_piece(&self.piece, (x, y + 1))
            invariant
                self == old(self),
                self.wf(),
                x == self.spec_position().0,
                0 <= (y as int) < (GRID_HEIGHT as int),
                can_place_cells(self.grid.cells(), self.piece.spec_cells(), (x, y)),
                fall_y(
                    self.grid.cells(),
                    self.piece.spec_cells(),
                    x,
                    self.spec_position().1 as int,
                ) == fall_y(self.grid.cells(), self.piece.spec_cells(), x, y as int),
            decreases GRID_HEIGHT as int - y as int,
        {
            proof {
                lemma_rotation_shape(self.piece.spec_shape(), self.piece.spec_rotation());
                lemma_place_position_bounds(
                    self.grid.cells(),
                    self.piece.spec_cells(),
                    (x, ((y + 1) as isize)),
                );
            }
            y = y + 1;
        }
        proof {
            assert(fall_y(self.grid.cells(), self.piece.spec_cells(), x, y as int) == y as int);
        }
        self.position = (x, y);
        self.grid.fix_piece(&self.piece, self.position);
        let rows = self.grid.check_complete_rows();
        proof {
            lemma_complete_rows_bounded(self.grid.cells(), GRID_HEIGHT as int);
            lemma_complete_rows_ascending(self.grid.cells(), GRID_HEIGHT as int);
        }
        let cleared = rows.len();
        self.grid.clear_and_shift_rows(rows);
        if self.score <= usize::MAX - cleared {
            self.score = self.score + cleared;
        }
        let shape = self.piece.shape;
        self.piece = Tetromino::new(shape);
        self.position = (4, 1);
    }

    /// Pauses a running game and resumes a paused one.
    fn toggle_pause(&mut self)
        requires
            old(self).wf(),
        ensures
            final(self).wf(),
            final(self).spec_grid() == old(self).spec_grid(),
            final(self).spec_score() == old(self).spec_score(),
            final(self).spec_piece() == old(self).spec_piece(),
            final(self).spec_position() == old(self).spec_position(),
            final(self).spec_paused() == !old(self).spec_paused(),
    {
        self.paused = !self.paused;
    }

    /// Resets the game to its starting state.
    fn restart_game(&mut self)
        ensures
            final(self).wf(),
            final(self).spec_score() == 0,
            !final(self).spec_paused(),
            forall|i: int|
                0 <= i < final(self).spec_grid().cells().len() ==> final(self).spec_grid().cells()[i]
                    == BlockStatus::Empty,
            final(self).spec_piece().spec_shape() == Shape::I,
            final(self).spec_piece().spec_rotation() == 0,
            final(self).spec_position() == (4isize, 1isize),
    {
        self.grid = Grid::new();
        self.score = 0;
        self.piece = Tetromino::new(Shape::I);
        self.position = (4, 1);
        self.paused = false;
    }

    /// Routes one player request to the handler for it.
    fn process_input(&mut self, action: PlayerAction)
        requires
            old(self).wf(),
        ensures
            final(self).wf(),
            (action matches PlayerAction::MoveDown) ==> final(self).spec_grid() == old(self).spec_grid() && final(self).spec_score() == old(self).spec_score() && final(self).spec_paused() == old(self).spec_paused() && final(self).spec_piece() == old(self).spec_piece() && (old(self).move_allowed(0, 1) ==> final(self).spec_position() == (
                old(self).spec_position().0,
                ((old(self).spec_position().1 as int + 1) as isize),
            )) && (!old(self).move_allowed(0, 1) ==> final(self).spec_position() == old(self).spec_position()),
    {
        match action {
            PlayerAction::MoveLeft => self.move_tetromino(-1, 0),
            PlayerAction::MoveRight => self.move_tetromino(1, 0),
            PlayerAction::MoveDown => self.move_tetromino(0, 1),
            PlayerAction::Drop => self.drop_tetromino(),
            PlayerAction::Rotate => self.rotate_tetromino(),
            PlayerAction::Pause => self.toggle_pause(),
            PlayerAction::Restart => self.restart_game(),
        }
    }

    /// The score.
    pub fn score(&self) -> (r: usize)
        ensures
            r as int == self.spec_score(),
    {
        self.score
    }

    /// Whether the game is paused.
    pub fn is_paused(&self) -> (r: bool)
        ensures
            r == self.spec_paused(),
    {
        self.paused
    }

    /// The grid position of the falling piece's origin cell.
    pub fn position(&self) -> (r: (isize, isize))
        ensures
            r == self.spec_position(),
    {
        self.position
    }

    /// The settled grid.
    pub fn grid(&self) -> (r: &Grid)
        ensures
            *r == self.spec_grid(),
    {
        &self.grid
    }

    /// One tick of the game loop: reads the player's request and applies
    /// it. With input handling not wired up, every tick advances the
    /// falling piece one row where it fits.
    pub fn update_game_state(&mut self)
        requires
            old(self).wf(),
        ensures
            final(self).wf(),
            final(self).spec_grid() == old(self).spec_grid(),
            final(self).spec_score() == old(self).spec_score(),
            final(self).spec_paused() == old(self).spec_paused(),
            final(self).spec_piece() == old(self).spec_piece(),
            old(self).move_allowed(0, 1) ==> final(self).spec_position() == (
                old(self).spec_position().0,
                ((old(self).spec_position().1 as int + 1) as isize),
            ),
            !old(self).move_allowed(0, 1) ==> final(self).spec_position() == old(self).spec_position(),
    {
        let action = get_player_input();
        self.process_input(action);
    }
}

} // verus!
