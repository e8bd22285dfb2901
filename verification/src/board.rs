//! The board: a square grid of cells and the number of fruit left of each
//! kind.
use vstd::prelude::*;
use crate::fruit::{FruitCounts, FruitType};
use crate::grid::{grid_cells, grid_copy, grid_dim, grid_get, grid_put, grid_rows, FruitGrid};

verus! {

/// What a cell adds to the tally of `fruit`.
pub open spec fn weight(cell: Option<FruitType>, fruit: FruitType) -> nat {
    if cell == Some(fruit) {
        1
    } else {
        0
    }
}

/// How many cells of `cells` hold a fruit of kind `fruit`.
pub open spec fn tally(cells: Seq<Option<FruitType>>, fruit: FruitType) -> nat
    decreases cells.len(),
{
    if cells.len() == 0 {
        0
    } else {
        tally(cells.drop_last(), fruit) + weight(cells.last(), fruit)
    }
}

/// A tally never exceeds the number of cells.
pub proof fn lemma_tally_bound(cells: Seq<Option<FruitType>>, fruit: FruitType)
    ensures
        tally(cells, fruit) <= cells.len(),
    decreases cells.len(),
{
    if cells.len() > 0 {
        lemma_tally_bound(cells.drop_last(), fruit);
    }
}

/// Counting one cell further adds that cell's contribution.
pub proof fn lemma_tally_step(cells: Seq<Option<FruitType>>, i: int, fruit: FruitType)
    requires
        0 <= i < cells.len(),
    ensures
        tally(cells.take(i + 1), fruit) == tally(cells.take(i), fruit) + weight(cells[i], fruit),
{
    assert(cells.take(i + 1).drop_last() == cells.take(i));
}

/// The tally of two runs of cells is the sum of their tallies.
pub proof fn lemma_tally_concat(
    left: Seq<Option<FruitType>>,
    right: Seq<Option<FruitType>>,
    fruit: FruitType,
)
    ensures
        tally(left + right, fruit) == tally(left, fruit) + tally(right, fruit),
    decreases right.len(),
{
    if right.len() == 0 {
        assert(left + right == left);
    } else {
        assert((left + right).drop_last() == left + right.drop_last());
        lemma_tally_concat(left, right.drop_last(), fruit);
    }
}

/// Changing one cell changes the tally by what the new content adds and the
/// old content added.
pub proof fn lemma_tally_update(
    cells: Seq<Option<FruitType>>,
    i: int,
    cell: Option<FruitType>,
    fruit: FruitType,
)
    requires
        0 <= i < cells.len(),
    ensures
        tally(cells.update(i, cell), fruit) + weight(cells[i], fruit) == tally(cells, fruit)
            + weight(cell, fruit),
    decreases cells.len(),
{
    if i == cells.len() - 1 {
        assert(cells.update(i, cell).drop_last() == cells.drop_last());
    } else {
        assert(cells.update(i, cell).drop_last() == cells.drop_last().update(i, cell));
        lemma_tally_update(cells.drop_last(), i, cell, fruit);
    }
}

/// Changing one cell of a grid changes the tally over the whole grid by what
/// the new content adds and the old content added.
pub proof fn lemma_grid_tally_update(
    rows: Seq<Seq<Option<FruitType>>>,
    x: int,
    y: int,
    cell: Option<FruitType>,
    fruit: FruitType,
)
    requires
        0 <= x < rows.len(),
        0 <= y < rows[x].len(),
    ensures
        tally(rows.update(x, rows[x].update(y, cell)).flatten(), fruit) + weight(
            rows[x][y],
            fruit,
        ) == tally(rows.flatten(), fruit) + weight(cell, fruit),
    decreases rows.len(),
{
    let changed = rows.update(x, rows[x].update(y, cell));
    lemma_tally_concat(rows.first(), rows.drop_first().flatten(), fruit);
    lemma_tally_concat(changed.first(), changed.drop_first().flatten(), fruit);
    if x == 0 {
        assert(changed.drop_first() == rows.drop_first());
        lemma_tally_update(rows[0], y, cell, fruit);
    } else {
        assert(changed.drop_first() == rows.drop_first().update(
            x - 1,
            rows.drop_first()[x - 1].update(y, cell),
        ));
        lemma_grid_tally_update(rows.drop_first(), x - 1, y, cell, fruit);
    }
}

/// A positive tally finds a cell that holds the fruit.
pub proof fn lemma_tally_finds(cells: Seq<Option<FruitType>>, fruit: FruitType)
    requires
        tally(cells, fruit) > 0,
    ensures
        exists|i: int| 0 <= i < cells.len() && cells[i] == Some(fruit),
    decreases cells.len(),
{
    if cells.len() > 0 {
        if cells.last() == Some(fruit) {
            assert(cells[cells.len() - 1] == Some(fruit));
        } else {
            lemma_tally_finds(cells.drop_last(), fruit);
            let i = choose|i: int|
                0 <= i < cells.drop_last().len() && cells.drop_last()[i] == Some(fruit);
            assert(cells[i] == Some(fruit));
        }
    }
}

/// Every entry of a flattened grid is an entry of one of its rows.
pub proof fn lemma_flatten_entry(rows: Seq<Seq<Option<FruitType>>>, i: int)
    requires
        0 <= i < rows.flatten().len(),
    ensures
        exists|x: int, y: int|
            0 <= x < rows.len() && 0 <= y < rows[x].len() && rows[x][y] == rows.flatten()[i],
    decreases rows.len(),
{
    if rows.len() > 0 {
        if i < rows.first().len() {
            assert(rows[0][i] == rows.flatten()[i]);
        } else {
            let rest = rows.drop_first();
            lemma_flatten_entry(rest, i - rows.first().len());
            let (x, y) = choose|x: int, y: int|
                0 <= x < rest.len() && 0 <= y < rest[x].len() && rest[x][y] == rest.flatten()[i
                    - rows.first().len()];
            assert(rows[x + 1][y] == rows.flatten()[i]);
        }
    }
}

/// A fruit on a cell of a grid is counted in the tally over the grid.
pub proof fn lemma_grid_tally_counts(
    rows: Seq<Seq<Option<FruitType>>>,
    x: int,
    y: int,
    fruit: FruitType,
)
    requires
        0 <= x < rows.len(),
        0 <= y < rows[x].len(),
        rows[x][y] == Some(fruit),
    ensures
        tally(rows.flatten(), fruit) >= 1,
{
    lemma_grid_tally_update(rows, x, y, None, fruit);
}

/// The counts that a grid of cells gives.
pub open spec fn counts_of(cells: Seq<Seq<Option<FruitType>>>) -> FruitCounts {
    FruitCounts {
        apple: tally(cells.flatten(), FruitType::Apple) as u64,
        banana: tally(cells.flatten(), FruitType::Banana) as u64,
        orange: tally(cells.flatten(), FruitType::Orange) as u64,
    }
}

/// The cells of a board, the length of its side, and how many fruit of each
/// kind are left on it.
#[derive(Debug)]
pub struct BoardState {
    pub fruit_map: FruitGrid,
    pub size: i8,
    pub fruit_counts: FruitCounts,
}

/// What a board is, whatever array holds it.
pub struct BoardView {
    pub cells: Seq<Seq<Option<FruitType>>>,
    pub size: i8,
    pub fruit_counts: FruitCounts,
}

impl View for BoardState {
    type V = BoardView;

    open spec fn view(&self) -> BoardView {
        BoardView {
            cells: grid_rows(self.fruit_map),
            size: self.size,
            fruit_counts: self.fruit_counts,
        }
    }
}

impl BoardView {
    /// The grid is `size` by `size`.
    pub open spec fn shaped(self) -> bool {
        &&& self.size >= 0
        &&& self.cells.len() == self.size
        &&& forall|x: int| 0 <= x < self.size ==> (#[trigger] self.cells[x]).len() == self.size
    }

    /// What lies on the cell `(x, y)`.
    pub open spec fn fruit_at(self, x: int, y: int) -> Option<FruitType> {
        self.cells[x][y]
    }

    /// How many cells hold a fruit of kind `fruit`.
    pub open spec fn remaining(self, fruit: FruitType) -> nat {
        tally(self.cells.flatten(), fruit)
    }

    /// The recorded counts are those of the grid.
    pub open spec fn counted(self) -> bool {
        &&& self.fruit_counts.apple == self.remaining(FruitType::Apple)
        &&& self.fruit_counts.banana == self.remaining(FruitType::Banana)
        &&& self.fruit_counts.orange == self.remaining(FruitType::Orange)
    }

    /// The board's invariant: a square grid whose contents the counts reflect.
    pub open spec fn wf(self) -> bool {
        self.shaped() && self.counted()
    }

    /// The board with its counts taken anew from its cells.
    pub open spec fn recounted(self) -> BoardView {
        BoardView { fruit_counts: counts_of(self.cells), ..self }
    }

    /// The board after `fruit` is put on `(x, y)`, or the cell is cleared with
    /// `None`, and the counts are taken anew.
    pub open spec fn with_fruit(self, x: int, y: int, fruit: Option<FruitType>) -> BoardView {
        BoardView {
            cells: self.cells.update(x, self.cells[x].update(y, fruit)),
            size: self.size,
            fruit_counts: counts_of(self.cells.update(x, self.cells[x].update(y, fruit))),
        }
    }

    /// No cell holds a fruit.
    pub open spec fn bare(self) -> bool {
        forall|x: int, y: int|
            0 <= x < self.size && 0 <= y < self.size ==> (#[trigger] self.cells[x][y]) is None
    }

    /// A board holds at most one fruit on each cell.
    pub proof fn lemma_remaining_bound(self, kind: FruitType)
        requires
            self.shaped(),
        ensures
            self.remaining(kind) <= self.size * self.size,
            self.size * self.size <= 127 * 127,
    {
        lemma_tally_bound(self.cells.flatten(), kind);
        self.cells.lemma_flatten_length_le_mul(self.size as int);
        self.cells.lemma_flatten_and_flatten_alt_are_equivalent();
        assert(self.size * self.size <= 127 * 127) by (nonlinear_arith)
            requires
                0 <= self.size <= 127,
        ;
    }

    /// Putting `fruit` on a cell of a well-formed board, or clearing the cell,
    /// leaves the board well-formed, and changes what remains of each kind by
    /// what the cell holds after and held before.
    pub proof fn lemma_with_fruit(self, x: int, y: int, fruit: Option<FruitType>, kind: FruitType)
        requires
            self.wf(),
            0 <= x < self.size,
            0 <= y < self.size,
        ensures
            self.with_fruit(x, y, fruit).wf(),
            self.with_fruit(x, y, fruit).remaining(kind) + weight(self.fruit_at(x, y), kind)
                == self.remaining(kind) + weight(fruit, kind),
    {
        lemma_grid_tally_update(self.cells, x, y, fruit, FruitType::Apple);
        lemma_grid_tally_update(self.cells, x, y, fruit, FruitType::Banana);
        lemma_grid_tally_update(self.cells, x, y, fruit, FruitType::Orange);
        self.lemma_remaining_bound(FruitType::Apple);
        self.lemma_remaining_bound(FruitType::Banana);
        self.lemma_remaining_bound(FruitType::Orange);
    }

    /// A well-formed board whose counts are all zero holds no fruit.
    pub proof fn lemma_all_zero_is_bare(self)
        requires
            self.wf(),
            self.fruit_counts.all_zero(),
        ensures
            self.bare(),
    {
        assert forall|x: int, y: int|
            0 <= x < self.size && 0 <= y < self.size implies (#[trigger] self.cells[x][y]) is None by {
            if let Some(kind) = self.cells[x][y] {
                lemma_grid_tally_counts(self.cells, x, y, kind);
            }
        }
    }
}

impl BoardState {
    /// Whether the board's invariant holds: the grid is `size` by `size`, and
    /// the recorded counts are those of the grid.
    pub fn is_well_formed(&self) -> (ok: bool)
        ensures
            ok == self@.wf(),
    {
        let dim = grid_dim(&self.fruit_map);
        if self.size < 0 || dim.0 != self.size as usize {
            return false;
        }
        if dim.0 > 0 && dim.1 != self.size as usize {
            assert(self@.cells[0].len() != self.size);
            return false;
        }
        let mut recount = self.clone();
        recount.update_fruit_counts();
        recount.fruit_counts.apple == self.fruit_counts.apple && recount.fruit_counts.banana
            == self.fruit_counts.banana && recount.fruit_counts.orange == self.fruit_counts.orange
    }

    /// Puts `fruit` on the cell `(x, y)`, or clears the cell with `None`, and
    /// counts the grid anew.
    pub fn set_fruit(&mut self, x: usize, y: usize, fruit: Option<FruitType>)
        requires
            old(self)@.shaped(),
            x < old(self).size,
            y < old(self).size,
        ensures
            final(self)@ == old(self)@.with_fruit(x as int, y as int, fruit),
            final(self)@.wf(),
    {
        grid_put(&mut self.fruit_map, x, y, fruit);
        self.update_fruit_counts();
    }

    /// What lies on the cell `(x, y)`.
    pub fn get_fruit(&self, x: usize, y: usize) -> (fruit: Option<FruitType>)
        requires
            self@.shaped(),
            x < self.size,
            y < self.size,
        ensures
            fruit == self@.fruit_at(x as int, y as int),
    {
        grid_get(&self.fruit_map, x, y)
    }

    /// Counts the fruit of each kind on the grid and records the numbers.
    pub fn update_fruit_counts(&mut self)
        ensures
            final(self)@ == old(self)@.recounted(),
            final(self)@.counted(),
    {
        let cells: Vec<Option<FruitType>> = grid_cells(&self.fruit_map);
        let mut counts = FruitCounts::new();
        let mut i: usize = 0;
        while i < cells.len()
            invariant
                i <= cells.len(),
                counts.apple == tally(cells@.take(i as int), FruitType::Apple),
                counts.banana == tally(cells@.take(i as int), FruitType::Banana),
                counts.orange == tally(cells@.take(i as int), FruitType::Orange),
            decreases cells.len() - i,
        {
            proof {
                lemma_tally_step(cells@, i as int, FruitType::Apple);
                lemma_tally_step(cells@, i as int, FruitType::Banana);
                lemma_tally_step(cells@, i as int, FruitType::Orange);
                lemma_tally_bound(cells@.take(i as int), FruitType::Apple);
                lemma_tally_bound(cells@.take(i as int), FruitType::Banana);
                lemma_tally_bound(cells@.take(i as int), FruitType::Orange);
            }
            match cells[i] {
                Some(fruit) => {
                    let held: u64 = counts.get(fruit);
                    counts.set(fruit, held + 1);
                },
                None => {},
            }
            i = i + 1;
        }
        assert(cells@.take(cells.len() as int) == cells@);
        self.fruit_counts = counts;
    }
}

impl Clone for BoardState {
    fn clone(&self) -> (copy: BoardState)
        ensures
            copy@ == self@,
    {
        BoardState {
            fruit_map: grid_copy(&self.fruit_map),
            size: self.size,
            fruit_counts: self.fruit_counts,
        }
    }
}

} // verus!
