use vstd::prelude::*;

verus! {

/// The abstract state of a grid: its identifier, its dimensions and its
/// cells, indexed `cells[row][col]`.
pub struct GridModel {
    pub id: Seq<char>,
    pub width: nat,
    pub height: nat,
    pub cells: Seq<Seq<bool>>,
}

/// The Life transition rule: a cell with two live neighbours keeps its
/// state, a cell with three is alive, every other cell is dead.
pub open spec fn next_state(alive: bool, neighbours: nat) -> bool {
    neighbours == 3 || (neighbours == 2 && alive)
}

/// Whether a cell at progress point `(x, y)` of a row-major walk over
/// `[r0, ..) x [c0, c1)` has already been visited.
pub open spec fn walked(r0: int, c0: int, c1: int, x: int, y: int, i: int, j: int) -> bool {
    (r0 <= i < x && c0 <= j < c1) || (i == x && c0 <= j < y)
}

impl GridModel {
    /// The cell matrix has exactly `width` rows of `height` cells.
    pub open spec fn wf(self) -> bool {
        &&& self.cells.len() == self.width
        &&& forall|i: int| 0 <= i < self.width ==> #[trigger] self.cells[i].len() == self.height
    }

    pub open spec fn in_bounds(self, r: int, c: int) -> bool {
        0 <= r < self.width && 0 <= c < self.height
    }

    /// A coordinate outside the grid counts as dead (edge clipping).
    pub open spec fn alive(self, r: int, c: int) -> bool {
        self.in_bounds(r, c) && self.cells[r][c]
    }

    pub open spec fn weight(self, r: int, c: int) -> nat {
        if self.alive(r, c) {
            1
        } else {
            0
        }
    }

    /// Live cells among the eight Moore neighbours of `(r, c)`.
    pub open spec fn neighbor_count(self, r: int, c: int) -> nat {
        self.weight(r - 1, c - 1) + self.weight(r - 1, c) + self.weight(r - 1, c + 1)
            + self.weight(r, c - 1) + self.weight(r, c + 1)
            + self.weight(r + 1, c - 1) + self.weight(r + 1, c) + self.weight(r + 1, c + 1)
    }

    pub open spec fn with_cell(self, r: int, c: int, v: bool) -> GridModel {
        GridModel { cells: self.cells.update(r, self.cells[r].update(c, v)), ..self }
    }

    /// Every cell is dead.
    pub open spec fn all_dead(self) -> bool {
        forall|i: int, j: int| self.in_bounds(i, j) ==> !#[trigger] self.cells[i][j]
    }

    /// The next generation under the Life rule.
    pub open spec fn step(self) -> GridModel {
        GridModel {
            cells: Seq::new(
                self.width,
                |r: int|
                    Seq::new(
                        self.height,
                        |c: int| next_state(self.cells[r][c], self.neighbor_count(r, c)),
                    ),
            ),
            ..self
        }
    }

    /// The grid after `n` generations.
    pub open spec fn evolve(self, n: nat) -> GridModel
        decreases n,
    {
        if n == 0 {
            self
        } else {
            self.evolve((n - 1) as nat).step()
        }
    }

    /// The grid after a row-major walk over `[r0, ..) x [c0, c1)` has
    /// written `v` to every cell before the progress point `(x, y)`.
    pub open spec fn filled(self, r0: int, c0: int, c1: int, x: int, y: int, v: bool) -> GridModel {
        GridModel {
            cells: Seq::new(
                self.width,
                |i: int|
                    Seq::new(
                        self.height,
                        |j: int|
                            if walked(r0, c0, c1, x, y, i, j) {
                                v
                            } else {
                                self.cells[i][j]
                            },
                    ),
            ),
            ..self
        }
    }

    /// Every coordinate of `[r0, r1) x [c0, c1)` lies inside the grid.
    pub open spec fn span_in_bounds(self, r0: int, r1: int, c0: int, c1: int) -> bool {
        r0 >= r1 || c0 >= c1 || (r1 <= self.width && c1 <= self.height)
    }

    /// Where a row-major walk over `[r0, r1) x [c0, c1)` stops: at its end,
    /// or at the first coordinate outside the grid.
    pub open spec fn span_stop(self, r0: int, r1: int, c0: int, c1: int) -> (int, int) {
        if r0 >= r1 || c0 >= c1 || r0 >= self.width {
            (r0, c0)
        } else if c1 > self.height {
            (r0, if c0 >= self.height { c0 } else { self.height as int })
        } else if r1 > self.width {
            (self.width as int, c0)
        } else {
            (r1, c0)
        }
    }

    /// The grid after writing `v` over `[r0, r1) x [c0, c1)` in row-major
    /// order, up to the first coordinate outside the grid.
    pub open spec fn write_span(self, r0: int, r1: int, c0: int, c1: int, v: bool) -> GridModel {
        let stop = self.span_stop(r0, r1, c0, c1);
        self.filled(r0, c0, c1, stop.0, stop.1, v)
    }
}

/// Writing a cell and then reading it back gives the value written; the
/// grid keeps its shape.
pub proof fn lemma_get_after_set(m: GridModel, r: int, c: int, v: bool)
    requires
        m.wf(),
        m.in_bounds(r, c),
    ensures
        m.with_cell(r, c, v).wf(),
        m.with_cell(r, c, v).cells[r][c] == v,
{
    let n = m.with_cell(r, c, v);
    assert forall|i: int| 0 <= i < n.width implies #[trigger] n.cells[i].len() == n.height by {
        if i != r {
            assert(n.cells[i] == m.cells[i]);
        }
    }
}

/// On a grid with no live cell every coordinate has no live neighbour.
pub proof fn lemma_dead_grid_has_no_neighbours(m: GridModel, r: int, c: int)
    requires
        m.wf(),
        m.all_dead(),
    ensures
        m.neighbor_count(r, c) == 0,
{
}

/// On a grid of at least 7 x 7 whose only live cell is `(5, 5)`, the eight
/// cells around it have one live neighbour and every other cell has none.
pub proof fn lemma_single_live_cell(m: GridModel, r: int, c: int)
    requires
        m.wf(),
        m.width >= 7,
        m.height >= 7,
        forall|i: int, j: int| m.in_bounds(i, j) ==> (#[trigger] m.cells[i][j] <==> (i == 5 && j == 5)),
    ensures
        m.neighbor_count(r, c) == (if (r != 5 || c != 5) && 4 <= r <= 6 && 4 <= c <= 6 {
            1nat
        } else {
            0nat
        }),
{
    assert(m.cells[5][5]);
}

/// A step of a grid with no live cell gives a grid with no live cell: no
/// cell is born from nothing.
pub proof fn lemma_dead_grid_stays_dead(m: GridModel)
    requires
        m.wf(),
        m.all_dead(),
    ensures
        m.step().wf(),
        m.step().all_dead(),
        m.step().width == m.width,
        m.step().height == m.height,
{
    assert forall|i: int, j: int| m.in_bounds(i, j) implies !#[trigger] m.step().cells[i][j] by {
        lemma_dead_grid_has_no_neighbours(m, i, j);
    }
}

/// A coordinate lies outside the grid.
#[derive(Debug, Clone, Copy, PartialEq, Eq)]
pub struct BoundsError;

/// A bounded two-dimensional grid of cells.
pub trait World {
    spec fn model(&self) -> GridModel;

    fn get_id(&self) -> (r: String)
        ensures
            r@ == self.model().id,
    ;

    fn get_bounds(&self) -> (r: (usize, usize))
        ensures
            r.0 == self.model().width,
            r.1 == self.model().height,
    ;

    /// The state of the cell at `coords`.
    fn get(&self, coords: &(usize, usize)) -> (r: Result<bool, BoundsError>)
        requires
            self.model().wf(),
        ensures
            self.model().in_bounds(coords.0 as int, coords.1 as int) ==> r == Ok::<bool, BoundsError>(
                self.model().cells[coords.0 as int][coords.1 as int],
            ),
            !self.model().in_bounds(coords.0 as int, coords.1 as int) ==> r is Err,
    ;

    /// Writes the cell at `coords` and returns its previous state; leaves
    /// the grid unchanged when `coords` lies outside it.
    fn set(&mut self, coords: &(usize, usize), alive: bool) -> (r: Result<bool, BoundsError>)
        requires
            old(self).model().wf(),
        ensures
            final(self).model().wf(),
            old(self).model().in_bounds(coords.0 as int, coords.1 as int) ==> {
                &&& r == Ok::<bool, BoundsError>(old(self).model().cells[coords.0 as int][coords.1 as int])
                &&& final(self).model() == old(self).model().with_cell(coords.0 as int, coords.1 as int, alive)
            },
            !old(self).model().in_bounds(coords.0 as int, coords.1 as int) ==> {
                &&& r is Err
                &&& final(self).model() == old(self).model()
            },
    ;

    /// Writes `alive` over the rows `span.0` times the columns `span.1` in
    /// row-major order. Fails at the first coordinate outside the grid,
    /// keeping the writes made before it.
    fn set_span(&mut self, span: (std::ops::Range<usize>, std::ops::Range<usize>), alive: bool) -> (r:
        Result<(), BoundsError>)
        requires
            old(self).model().wf(),
        ensures
            final(self).model().wf(),
            r is Ok <==> old(self).model().span_in_bounds(
                span.0.start as int,
                span.0.end as int,
                span.1.start as int,
                span.1.end as int,
            ),
            final(self).model() == old(self).model().write_span(
                span.0.start as int,
                span.0.end as int,
                span.1.start as int,
                span.1.end as int,
                alive,
            ),
    ;

    /// The number of live cells among the eight neighbours of `coords`,
    /// which must lie inside the grid; neighbours outside it count as dead.
    fn get_neighbours(&self, coords: &(usize, usize)) -> (r: u8)
        requires
            self.model().wf(),
            self.model().in_bounds(coords.0 as int, coords.1 as int),
        ensures
            r as nat == self.model().neighbor_count(coords.0 as int, coords.1 as int),
    ;
}

} // verus!
