use vstd::prelude::*;

use crate::world::{BoundsError, GridModel, World};

verus! {

/// A grid held in memory as one vector of cells per row.
#[derive(Debug)]
pub struct InMemWorld {
    id: String,
    bounds: (usize, usize),
    grid: Vec<Vec<bool>>,
}

impl View for InMemWorld {
    type V = GridModel;

    closed spec fn view(&self) -> GridModel {
        GridModel {
            id: self.id@,
            width: self.bounds.0 as nat,
            height: self.bounds.1 as nat,
            cells: self.grid@.map_values(|row: Vec<bool>| row@),
        }
    }
}

impl InMemWorld {
    /// Each row of the model is the corresponding row vector.
    proof fn lemma_rows(&self)
        requires
            self@.wf(),
        ensures
            self.grid@.len() == self.bounds.0,
            forall|i: int|
                0 <= i < self.bounds.0 ==> #[trigger] self.grid@[i]@ == self@.cells[i]
                    && self.grid@[i]@.len() == self.bounds.1,
    {
        assert forall|i: int| 0 <= i < self.bounds.0 implies #[trigger] self.grid@[i]@
            == self@.cells[i] && self.grid@[i]@.len() == self.bounds.1 by {
            assert(self@.cells[i].len() == self.bounds.1);
        }
    }

    /// A grid of the given bounds with every cell dead.
    pub fn new(id: String, bounds: (usize, usize)) -> (r: Self)
        ensures
            r@.wf(),
            r@.id == id@,
            r@.width == bounds.0,
            r@.height == bounds.1,
            r@.all_dead(),
    {
        let mut grid: Vec<Vec<bool>> = Vec::with_capacity(bounds.0);
        let mut i: usize = 0;
        while i < bounds.0
            invariant
                i <= bounds.0,
                grid@.len() == i,
                forall|k: int| 0 <= k < i ==> #[trigger] grid@[k]@ == Seq::new(bounds.1 as nat, |j: int| false),
            decreases bounds.0 - i,
        {
            grid.push(vec![false; bounds.1]);
            i = i + 1;
        }
        InMemWorld { id, bounds, grid }
    }

    /// An independent copy of this grid that shares no storage with it.
    pub fn duplicate(&self) -> (r: Self)
        requires
            self@.wf(),
        ensures
            r@ == self@,
    {
        proof {
            self.lemma_rows();
        }
        let mut grid: Vec<Vec<bool>> = Vec::with_capacity(self.bounds.0);
        let mut i: usize = 0;
        while i < self.bounds.0
            invariant
                self@.wf(),
                i <= self.bounds.0,
                grid@.len() == i,
                forall|k: int| 0 <= k < i ==> #[trigger] grid@[k]@ == self.grid@[k]@,
            decreases self.bounds.0 - i,
        {
            proof {
                self.lemma_rows();
            }
            let mut row: Vec<bool> = Vec::with_capacity(self.bounds.1);
            let mut j: usize = 0;
            while j < self.bounds.1
                invariant
                    self@.wf(),
                    i < self.bounds.0,
                    j <= self.bounds.1,
                    self.grid@.len() == self.bounds.0,
                    self.grid@[i as int]@.len() == self.bounds.1,
                    row@ == self.grid@[i as int]@.subrange(0, j as int),
                decreases self.bounds.1 - j,
            {
                row.push(self.grid[i][j]);
                j = j + 1;
            }
            assert(row@ =~= self.grid@[i as int]@);
            grid.push(row);
            i = i + 1;
        }
        let r = InMemWorld { id: self.id.clone(), bounds: self.bounds, grid };
        assert(r@.cells =~= self@.cells) by {
            self.lemma_rows();
        }
        r
    }

    /// 1 when the neighbour of `(r, c)` at offset `(dr - 1, dc - 1)` is
    /// alive, 0 when it is dead or outside the grid.
    fn neighbour_weight(&self, r: usize, c: usize, dr: usize, dc: usize) -> (n: u8)
        requires
            self@.wf(),
            r < self.bounds.0,
            c < self.bounds.1,
            dr < 3,
            dc < 3,
        ensures
            n == self@.weight(r + dr - 1, c + dc - 1),
    {
        proof {
            self.lemma_rows();
        }
        if (r == 0 && dr == 0) || (c == 0 && dc == 0) {
            return 0;
        }
        let i = if dr == 0 {
            r - 1
        } else if dr == 1 {
            r
        } else {
            r + 1
        };
        let j = if dc == 0 {
            c - 1
        } else if dc == 1 {
            c
        } else {
            c + 1
        };
        if i < self.bounds.0 && j < self.bounds.1 && self.grid[i][j] {
            1
        } else {
            0
        }
    }
}

impl World for InMemWorld {
    open spec fn model(&self) -> GridModel {
        self@
    }

    fn get_id(&self) -> (r: String) {
        self.id.clone()
    }

    fn get_bounds(&self) -> (r: (usize, usize)) {
        self.bounds
    }

    fn get(&self, coords: &(usize, usize)) -> (r: Result<bool, BoundsError>) {
        proof {
            self.lemma_rows();
        }
        if coords.0 < self.bounds.0 && coords.1 < self.bounds.1 {
            Ok(self.grid[coords.0][coords.1])
        } else {
            Err(BoundsError)
        }
    }

    fn set(&mut self, coords: &(usize, usize), alive: bool) -> (r: Result<bool, BoundsError>) {
        proof {
            self.lemma_rows();
        }
        if coords.0 < self.bounds.0 && coords.1 < self.bounds.1 {
            let previous = self.grid[coords.0][coords.1];
            self.grid[coords.0].set(coords.1, alive);
            assert(self@.cells =~= old(self)@.with_cell(coords.0 as int, coords.1 as int, alive).cells);
            Ok(previous)
        } else {
            Err(BoundsError)
        }
    }

    fn set_span(&mut self, span: (std::ops::Range<usize>, std::ops::Range<usize>), alive: bool) -> (r:
        Result<(), BoundsError>) {
        let r0 = span.0.start;
        let r1 = span.0.end;
        let c0 = span.1.start;
        let c1 = span.1.end;
        let ghost start = self@;
        assert(start.filled(r0 as int, c0 as int, c1 as int, r0 as int, c0 as int, alive).cells =~~= start.cells);
        let mut x: usize = r0;
        while x < r1
            invariant
                start == old(self)@,
                r0 == span.0.start && r1 == span.0.end && c0 == span.1.start && c1 == span.1.end,
                start.wf(),
                self@.wf(),
                r0 <= x,
                x > r0 ==> x <= r1,
                x > r0 && c0 < c1 ==> x <= start.width && c1 <= start.height,
                self@ == start.filled(r0 as int, c0 as int, c1 as int, x as int, c0 as int, alive),
            decreases r1 - x,
        {
            let mut y: usize = c0;
            while y < c1
                invariant
                    start == old(self)@,
                    r0 == span.0.start && r1 == span.0.end && c0 == span.1.start && c1 == span.1.end,
                r0 == span.0.start && r1 == span.0.end && c0 == span.1.start && c1 == span.1.end,
                    start.wf(),
                    self@.wf(),
                    r0 <= x < r1,
                    x > r0 && c0 < c1 ==> x <= start.width && c1 <= start.height,
                    c0 <= y,
                    y > c0 ==> y <= c1 && x < start.width && y <= start.height,
                    self@ == start.filled(r0 as int, c0 as int, c1 as int, x as int, y as int, alive),
                decreases c1 - y,
            {
                match self.set(&(x, y), alive) {
                    Ok(_) => {},
                    Err(e) => {
                        assert(start.span_stop(r0 as int, r1 as int, c0 as int, c1 as int) == (
                            x as int,
                            y as int,
                        ));
                        return Err(e);
                    },
                }
                assert(self@.cells =~~= start.filled(r0 as int, c0 as int, c1 as int, x as int, y + 1, alive).cells);
                y = y + 1;
            }
            assert(start.filled(r0 as int, c0 as int, c1 as int, x as int, y as int, alive).cells =~~= start.filled(
                r0 as int,
                c0 as int,
                c1 as int,
                x + 1,
                c0 as int,
                alive,
            ).cells);
            x = x + 1;
        }
        if c0 >= c1 {
            assert(self@.cells =~~= start.filled(r0 as int, c0 as int, c1 as int, r0 as int, c0 as int, alive).cells);
        }
        Ok(())
    }

    fn get_neighbours(&self, coords: &(usize, usize)) -> (r: u8) {
        let (r, c) = *coords;
        self.neighbour_weight(r, c, 0, 0) + self.neighbour_weight(r, c, 0, 1) + self.neighbour_weight(
            r,
            c,
            0,
            2,
        ) + self.neighbour_weight(r, c, 1, 0) + self.neighbour_weight(r, c, 1, 2)
            + self.neighbour_weight(r, c, 2, 0) + self.neighbour_weight(r, c, 2, 1)
            + self.neighbour_weight(r, c, 2, 2)
    }
}

} // verus!
