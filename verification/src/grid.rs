//! The grid of drawn cells: which cells are occupied, how a batch of
//! coordinates marks it, and how its occupied cells are listed.

use vstd::prelude::*;

verus! {

/// Number of rows of the grid.
pub const ROWS: usize = 64;

/// Number of columns of the grid.
pub const COLUMNS: usize = 80;

/// How many coordinates one batch or one listing holds at most.
pub const MAX_COORDINATES: usize = 256;

/// A cell position: row, then column.
pub type Coordinate = (usize, usize);

/// A batch of coordinates: a fixed number of slots, each empty or filled.
pub type Coordinates = [Option<Coordinate>; 256];

/// `ROWS` rows of `COLUMNS` cells.
pub open spec fn well_formed(cells: Seq<Seq<u8>>) -> bool {
    &&& cells.len() == ROWS
    &&& forall|row: int| 0 <= row < ROWS ==> (#[trigger] cells[row]).len() == COLUMNS
}

/// The grid with every cell empty.
pub open spec fn empty_cells() -> Seq<Seq<u8>> {
    Seq::new(ROWS as nat, |row: int| Seq::new(COLUMNS as nat, |column: int| 0u8))
}

/// What clearing makes of a grid, whatever it held.
pub open spec fn cleared(cells: Seq<Seq<u8>>) -> Seq<Seq<u8>> {
    empty_cells()
}

/// The position lies on the grid.
pub open spec fn in_bounds(coordinate: Coordinate) -> bool {
    coordinate.0 < ROWS && coordinate.1 < COLUMNS
}

/// The cell at a position on the grid is occupied.
pub open spec fn is_occupied(cells: Seq<Seq<u8>>, coordinate: Coordinate) -> bool {
    cells[coordinate.0 as int][coordinate.1 as int] != 0
}

/// The grid after marking one position: the cell is occupied if the
/// position lies on the grid, and nothing changes if it does not.
pub open spec fn marked(cells: Seq<Seq<u8>>, coordinate: Coordinate) -> Seq<Seq<u8>> {
    if in_bounds(coordinate) {
        cells.update(
            coordinate.0 as int,
            cells[coordinate.0 as int].update(coordinate.1 as int, 1u8),
        )
    } else {
        cells
    }
}

/// The grid after marking the filled slots of a batch, one after the other.
pub open spec fn marked_all(cells: Seq<Seq<u8>>, batch: Seq<Option<Coordinate>>) -> Seq<Seq<u8>>
    decreases batch.len(),
{
    if batch.len() == 0 {
        cells
    } else {
        let before = marked_all(cells, batch.drop_last());
        match batch.last() {
            Some(coordinate) => marked(before, coordinate),
            None => before,
        }
    }
}

/// The position of the `k`-th cell in row-major order.
pub open spec fn coordinate_at(k: int) -> Coordinate {
    ((k / COLUMNS as int) as usize, (k % COLUMNS as int) as usize)
}

/// Every position of the grid, row by row.
pub open spec fn all_coordinates() -> Seq<Coordinate> {
    Seq::new((ROWS * COLUMNS) as nat, |k: int| coordinate_at(k))
}

/// The test for an occupied cell, as a predicate on positions.
pub open spec fn occupied_in(cells: Seq<Seq<u8>>) -> spec_fn(Coordinate) -> bool {
    |coordinate: Coordinate| is_occupied(cells, coordinate)
}

/// The positions of the occupied cells, in row-major order.
pub open spec fn occupied_cells(cells: Seq<Seq<u8>>) -> Seq<Coordinate> {
    all_coordinates().filter(occupied_in(cells))
}

/// The first `MAX_COORDINATES` of a sequence of positions.
pub open spec fn capped(coordinates: Seq<Coordinate>) -> Seq<Coordinate> {
    if coordinates.len() > MAX_COORDINATES {
        coordinates.take(MAX_COORDINATES as int)
    } else {
        coordinates
    }
}

/// A list of at most `MAX_COORDINATES` positions, held without dynamic
/// memory. Its view is the positions in their order.
#[derive(Clone, Copy, Debug)]
pub struct CoordinateList {
    coords: [Coordinate; 256],
    len: usize,
}

impl View for CoordinateList {
    type V = Seq<Coordinate>;

    closed spec fn view(&self) -> Seq<Coordinate> {
        self.coords@.take(self.len as int)
    }
}

impl CoordinateList {
    #[verifier::type_invariant]
    spec fn within_capacity(&self) -> bool {
        self.len <= MAX_COORDINATES
    }

    /// How many positions the list holds.
    pub fn len(&self) -> (n: usize)
        ensures
            n == self@.len(),
            n <= MAX_COORDINATES,
    {
        proof {
            use_type_invariant(self);
        }
        self.len
    }

    /// The positions of the list.
    pub fn as_slice(&self) -> (r: &[Coordinate])
        ensures
            r@ == self@,
    {
        proof {
            use_type_invariant(self);
        }
        vstd::slice::slice_subrange(self.coords.as_slice(), 0, self.len)
    }
}

/// The drawn cells: `ROWS` rows of `COLUMNS` cells, each 0 for empty and
/// anything else for occupied. Its view is the rows from top to bottom.
#[derive(Clone, Debug, PartialEq, Eq)]
pub struct GridState {
    cells: [[u8; 80]; 64],
}

impl View for GridState {
    type V = Seq<Seq<u8>>;

    closed spec fn view(&self) -> Seq<Seq<u8>> {
        Seq::new(ROWS as nat, |row: int| self.cells[row]@)
    }
}

impl GridState {
    /// The view of a grid has the grid's shape.
    pub proof fn lemma_well_formed(&self)
        ensures
            well_formed(self@),
    {
    }

    /// A grid with every cell empty.
    pub fn new() -> (r: Self)
        ensures
            r@ == empty_cells(),
    {
        let r = Self { cells: [[0u8; 80]; 64] };
        assert(r@ =~~= empty_cells());
        r
    }

    /// Empties every cell.
    pub fn clear(&mut self)
        ensures
            final(self)@ == cleared(old(self)@),
    {
        self.cells = [[0u8; 80]; 64];
        assert(self@ =~~= empty_cells());
    }

    /// Whether the cell at `coordinate` is occupied; a position off the grid
    /// is not.
    pub fn occupied_at(&self, coordinate: Coordinate) -> (r: bool)
        ensures
            r == (in_bounds(coordinate) && is_occupied(self@, coordinate)),
    {
        coordinate.0 < ROWS && coordinate.1 < COLUMNS && self.cells[coordinate.0][coordinate.1]
            != 0
    }

    /// Marks the cell at `coordinate` as occupied. A position off the grid
    /// is dropped: the grid stays as it is and `false` comes back.
    pub fn mark(&mut self, coordinate: Coordinate) -> (r: bool)
        ensures
            final(self)@ == marked(old(self)@, coordinate),
            r == in_bounds(coordinate),
    {
        if coordinate.0 < ROWS && coordinate.1 < COLUMNS {
            self.cells[coordinate.0][coordinate.1] = 1;
            assert(self@ =~~= marked(old(self)@, coordinate));
            true
        } else {
            false
        }
    }

    /// Marks every filled slot of `batch`, dropping the positions off the
    /// grid.
    pub fn apply(&mut self, batch: &Coordinates)
        ensures
            final(self)@ == marked_all(old(self)@, batch@),
    {
        let ghost before = self@;
        let mut i: usize = 0;
        assert(batch@.take(0) =~= Seq::<Option<Coordinate>>::empty());
        while i < MAX_COORDINATES
            invariant
                i <= MAX_COORDINATES,
                self@ == marked_all(before, batch@.take(i as int)),
            decreases MAX_COORDINATES - i,
        {
            assert(batch@.take(i + 1).drop_last() =~= batch@.take(i as int));
            match batch[i] {
                Some(coordinate) => {
                    self.mark(coordinate);
                },
                None => {},
            }
            i += 1;
        }
        assert(batch@.take(MAX_COORDINATES as int) =~= batch@);
    }

    /// The positions of the occupied cells in row-major order, cut off
    /// after the first `MAX_COORDINATES`.
    pub fn occupied(&self) -> (r: CoordinateList)
        ensures
            r@ == capped(occupied_cells(self@)),
    {
        let mut coords: [Coordinate; 256] = [(0, 0); 256];
        let mut len: usize = 0;
        let ghost all = all_coordinates();
        let ghost test = occupied_in(self@);
        let mut row: usize = 0;
        proof {
            reveal(Seq::filter);
            assert(all.take(0).filter(test) =~= Seq::<Coordinate>::empty());
            assert(coords@.take(0) =~= Seq::<Coordinate>::empty());
        }
        while row < ROWS
            invariant
                row <= ROWS,
                len <= MAX_COORDINATES,
                all == all_coordinates(),
                test == occupied_in(self@),
                coords@.take(len as int) == capped(all.take(row * COLUMNS).filter(test)),
            decreases ROWS - row,
        {
            let mut column: usize = 0;
            while column < COLUMNS
                invariant
                    row < ROWS,
                    column <= COLUMNS,
                    len <= MAX_COORDINATES,
                    all == all_coordinates(),
                    test == occupied_in(self@),
                    coords@.take(len as int) == capped(
                        all.take(row * COLUMNS + column).filter(test),
                    ),
                decreases COLUMNS - column,
            {
                let ghost k: int = row * COLUMNS + column;
                let ghost seen = all.take(k).filter(test);
                let ghost found = coords@.take(len as int);
                proof {
                    assert(all.take(k + 1) =~= all.take(k).push(all[k]));
                    all.take(k).lemma_filter_push(all[k], test);
                    assert(all[k] == (row, column));
                    assert(test(all[k]) == (self.cells[row as int][column as int] != 0));
                }
                if self.cells[row][column] != 0 && len < MAX_COORDINATES {
                    coords[len] = (row, column);
                    len += 1;
                    assert(coords@.take(len as int) =~= found.push((row, column)));
                    assert(found.push((row, column)) =~= seen.push((row, column)));
                } else if self.cells[row][column] != 0 {
                    assert(seen.push((row, column)).take(MAX_COORDINATES as int) =~= seen.take(
                        MAX_COORDINATES as int,
                    ));
                }
                column += 1;
            }
            row += 1;
        }
        assert(all.take((ROWS * COLUMNS) as int) =~= all);
        CoordinateList { coords, len }
    }
}

impl Default for GridState {
    fn default() -> (r: Self)
        ensures
            r@ == empty_cells(),
    {
        Self::new()
    }
}

/// Clearing twice in a row leaves the same grid as clearing once.
pub proof fn lemma_clear_twice(cells: Seq<Seq<u8>>)
    ensures
        cleared(cleared(cells)) == cleared(cells),
{
}

/// A cleared grid lists no occupied cell.
pub proof fn lemma_cleared_lists_nothing(cells: Seq<Seq<u8>>)
    ensures
        capped(occupied_cells(cleared(cells))) == Seq::<Coordinate>::empty(),
{
    let all = all_coordinates();
    let test = occupied_in(empty_cells());
    assert forall|i: int| 0 <= i < all.len() implies !test(#[trigger] all[i]) by {
        let coordinate = all[i];
        assert(coordinate.0 < ROWS && coordinate.1 < COLUMNS);
    }
    assert(all.all(|coordinate: Coordinate| !test(coordinate)));
    all.lemma_all_neg_filter_empty(test);
    assert(occupied_cells(empty_cells()) =~= Seq::<Coordinate>::empty());
}

/// A position off the grid is dropped: marking it changes nothing.
pub proof fn lemma_out_of_bounds_dropped(cells: Seq<Seq<u8>>, coordinate: Coordinate)
    requires
        !in_bounds(coordinate),
    ensures
        marked(cells, coordinate) == cells,
        marked_all(cells, seq![Some(coordinate)]) == cells,
{
    let batch = seq![Some(coordinate)];
    assert(batch.drop_last() =~= Seq::<Option<Coordinate>>::empty());
    assert(marked_all(cells, batch.drop_last()) == cells);
}

/// A batch without a position on the grid changes nothing.
pub proof fn lemma_marked_all_off_grid(cells: Seq<Seq<u8>>, batch: Seq<Option<Coordinate>>)
    requires
        forall|i: int|
            0 <= i < batch.len() ==> (#[trigger] batch[i] matches Some(coordinate)
                ==> !in_bounds(coordinate)),
    ensures
        marked_all(cells, batch) == cells,
    decreases batch.len(),
{
    if batch.len() > 0 {
        let front = batch.drop_last();
        assert forall|i: int| 0 <= i < front.len() implies (#[trigger] front[i] matches Some(
            coordinate,
        ) ==> !in_bounds(coordinate)) by {
            assert(front[i] == batch[i]);
        }
        lemma_marked_all_off_grid(cells, front);
        assert(batch.last() == batch[batch.len() - 1]);
    }
}

/// A position is listed exactly if it lies on the grid and its cell is
/// occupied; so no position off the grid is ever listed.
pub proof fn lemma_listed_iff_occupied(cells: Seq<Seq<u8>>, coordinate: Coordinate)
    ensures
        occupied_cells(cells).contains(coordinate) <==> in_bounds(coordinate) && is_occupied(
            cells,
            coordinate,
        ),
{
    let all = all_coordinates();
    let test = occupied_in(cells);
    let listed = occupied_cells(cells);
    if listed.contains(coordinate) {
        all.lemma_filter_contains_rev(test, coordinate);
        let k = choose|k: int| 0 <= k < all.len() && all[k] == coordinate;
        assert(in_bounds(coordinate));
        let at = choose|at: int| 0 <= at < listed.len() && listed[at] == coordinate;
        all.lemma_filter_pred(test, at);
    }
    if in_bounds(coordinate) && is_occupied(cells, coordinate) {
        let k = coordinate.0 * COLUMNS + coordinate.1;
        assert(all[k] == coordinate);
        all.lemma_filter_contains(test, k);
    }
}

/// The place of a position in row-major order.
pub open spec fn row_major_index(coordinate: Coordinate) -> int {
    coordinate.0 * COLUMNS + coordinate.1
}

/// Among the first `k` positions in row-major order, the occupied ones are
/// listed in that order.
proof fn lemma_prefix_in_row_major_order(cells: Seq<Seq<u8>>, k: int)
    requires
        0 <= k <= ROWS * COLUMNS,
    ensures
        ({
            let listed = all_coordinates().take(k).filter(occupied_in(cells));
            &&& forall|i: int| 0 <= i < listed.len() ==> row_major_index(#[trigger] listed[i]) < k
            &&& forall|i: int, j: int|
                0 <= i < j < listed.len() ==> row_major_index(#[trigger] listed[i])
                    < row_major_index(#[trigger] listed[j])
        }),
    decreases k,
{
    let all = all_coordinates();
    let test = occupied_in(cells);
    if k == 0 {
        reveal(Seq::filter);
        assert(all.take(0).filter(test) =~= Seq::<Coordinate>::empty());
    } else {
        lemma_prefix_in_row_major_order(cells, k - 1);
        assert(all.take(k) =~= all.take(k - 1).push(all[k - 1]));
        all.take(k - 1).lemma_filter_push(all[k - 1], test);
        assert(row_major_index(all[k - 1]) == k - 1);
    }
}

/// The occupied cells are listed in row-major order, each once: of two
/// listed positions the earlier one comes first on the grid.
pub proof fn lemma_listed_in_row_major_order(cells: Seq<Seq<u8>>, i: int, j: int)
    requires
        0 <= i < j < occupied_cells(cells).len(),
    ensures
        row_major_index(occupied_cells(cells)[i]) < row_major_index(occupied_cells(cells)[j]),
{
    let all = all_coordinates();
    lemma_prefix_in_row_major_order(cells, (ROWS * COLUMNS) as int);
    assert(all.take((ROWS * COLUMNS) as int) =~= all);
}

/// Marking a batch keeps the shape of the grid.
pub proof fn lemma_marked_all_well_formed(cells: Seq<Seq<u8>>, batch: Seq<Option<Coordinate>>)
    requires
        well_formed(cells),
    ensures
        well_formed(marked_all(cells, batch)),
    decreases batch.len(),
{
    if batch.len() > 0 {
        lemma_marked_all_well_formed(cells, batch.drop_last());
    }
}

/// After a batch was marked, a cell is occupied exactly if it was occupied
/// before or the batch holds its position.
pub proof fn lemma_marked_all_occupied(
    cells: Seq<Seq<u8>>,
    batch: Seq<Option<Coordinate>>,
    coordinate: Coordinate,
)
    requires
        well_formed(cells),
        in_bounds(coordinate),
    ensures
        is_occupied(marked_all(cells, batch), coordinate) <==> is_occupied(cells, coordinate)
            || batch.contains(Some(coordinate)),
    decreases batch.len(),
{
    if batch.len() > 0 {
        let front = batch.drop_last();
        lemma_marked_all_occupied(cells, front, coordinate);
        lemma_marked_all_well_formed(cells, front);
        if front.contains(Some(coordinate)) {
            let at = choose|at: int| 0 <= at < front.len() && front[at] == Some(coordinate);
            assert(batch[at] == Some(coordinate));
        }
        if batch.contains(Some(coordinate)) && !front.contains(Some(coordinate)) {
            let at = choose|at: int| 0 <= at < batch.len() && batch[at] == Some(coordinate);
            if at < batch.len() - 1 {
                assert(front[at] == Some(coordinate));
            }
        }
        if batch.last() == Some(coordinate) {
            assert(batch[batch.len() - 1] == Some(coordinate));
        }
    }
}

} // verus!
