use vstd::prelude::*;

use crate::in_mem_world::InMemWorld;
use crate::recorder::Recorder;
use crate::world::{next_state, GridModel, World};

verus! {

/// Relies on uuid::Uuid::new_v4 for a random identifier, formatted through
/// its `Display` impl, which writes the 36-character hyphenated form.
#[verifier::external_body]
fn fresh_id() -> (r: String)
    ensures
        r@.len() == 36,
{
    uuid::Uuid::new_v4().to_string()
}

/// The snapshots a run of `n` steps hands to its recorder, starting from
/// `grid` at generation `first`.
pub open spec fn run_records(grid: GridModel, first: nat, n: nat) -> Seq<(u64, GridModel)> {
    Seq::new(n, |i: int| ((first + i) as u64, grid.evolve((i + 1) as nat)))
}

/// The character drawn for a cell.
pub open spec fn glyph(alive: bool) -> char {
    if alive {
        '\u{2022}'
    } else {
        ' '
    }
}

pub open spec fn row_text(row: Seq<bool>) -> Seq<char> {
    row.map_values(|b: bool| glyph(b))
}

/// The text of a grid: each row with a live cell, drawn cell by cell and
/// ended by a newline. Rows without a live cell are left out.
pub open spec fn rendered(cells: Seq<Seq<bool>>) -> Seq<char>
    decreases cells.len(),
{
    if cells.len() == 0 {
        Seq::empty()
    } else {
        let row = cells.last();
        rendered(cells.drop_last()) + if row.contains(true) {
            row_text(row) + seq!['\n']
        } else {
            Seq::empty()
        }
    }
}

/// The simulation engine: a current grid, a buffer grid of the same bounds
/// and id, a generation counter and a recorder.
pub struct GameOfLife<R: Recorder> {
    state: u64,
    world: InMemWorld,
    world_buffer: InMemWorld,
    recorder: R,
}

impl<R: Recorder> GameOfLife<R> {
    /// Both grids are well formed and share their bounds and id.
    pub closed spec fn wf(&self) -> bool {
        &&& self.world@.wf()
        &&& self.world_buffer@.wf()
        &&& self.world_buffer@.width == self.world@.width
        &&& self.world_buffer@.height == self.world@.height
        &&& self.world_buffer@.id == self.world@.id
    }

    pub closed spec fn generation(&self) -> nat {
        self.state as nat
    }

    /// The current grid.
    pub closed spec fn grid(&self) -> GridModel {
        self.world@
    }

    /// What the recorder has been handed so far.
    pub closed spec fn history(&self) -> Seq<(u64, GridModel)> {
        self.recorder.history()
    }

    /// An engine at generation 0 on an all-dead grid of the given size,
    /// named by a fresh random identifier.
    pub fn new(size: (usize, usize), recorder: R) -> (r: Self)
        ensures
            r.wf(),
            r.generation() == 0,
            r.grid().width == size.0,
            r.grid().height == size.1,
            r.grid().all_dead(),
            r.history() == recorder.history(),
    {
        let id = fresh_id();
        Self::with_id(id, size, recorder)
    }

    /// An engine at generation 0 on an all-dead grid of the given size and id.
    pub fn with_id(id: String, size: (usize, usize), recorder: R) -> (r: Self)
        ensures
            r.wf(),
            r.generation() == 0,
            r.grid().id == id@,
            r.grid().width == size.0,
            r.grid().height == size.1,
            r.grid().all_dead(),
            r.history() == recorder.history(),
    {
        let world = InMemWorld::new(id, size);
        let world_buffer = world.duplicate();
        GameOfLife { state: 0, world, world_buffer, recorder }
    }

    /// The current grid.
    pub fn world(&self) -> (r: &InMemWorld)
        ensures
            r@ == self.grid(),
    {
        &self.world
    }

    /// The current grid, for seeding a pattern. The engine stays well formed
    /// as long as the grid keeps its bounds and id.
    pub fn world_mut(&mut self) -> (r: &mut InMemWorld)
        requires
            old(self).wf(),
        ensures
            r@ == old(self).grid(),
            final(self).grid() == final(r)@,
            final(self).generation() == old(self).generation(),
            final(self).history() == old(self).history(),
            (final(r)@.wf() && final(r)@.width == old(self).grid().width && final(r)@.height == old(
                self,
            ).grid().height && final(r)@.id == old(self).grid().id) ==> final(self).wf(),
    {
        &mut self.world
    }

    /// The generation counter.
    pub fn state(&self) -> (r: u64)
        ensures
            r == self.generation(),
    {
        self.state
    }

    /// The recorder.
    pub fn recorder(&self) -> (r: &R)
        ensures
            r.history() == self.history(),
    {
        &self.recorder
    }

    /// The current grid as text.
    pub fn render(&self) -> (r: String)
        requires
            self.wf(),
        ensures
            r@ == rendered(self.grid().cells),
    {
        let ghost cells = self.grid().cells;
        let (width, height) = self.world.get_bounds();
        let mut data = String::new();
        let mut i: usize = 0;
        while i < width
            invariant
                self.wf(),
                cells == self.grid().cells,
                width == self.grid().width,
                height == self.grid().height,
                i <= width,
                data@ == rendered(cells.subrange(0, i as int)),
            decreases width - i,
        {
            let ghost row = cells[i as int];
            let mut line = String::new();
            let mut any = false;
            let mut k: usize = 0;
            while k < height
                invariant
                    self.wf(),
                    cells == self.grid().cells,
                    width == self.grid().width,
                    height == self.grid().height,
                    i < width,
                    k <= height,
                    row == cells[i as int],
                    line@ == row_text(row.subrange(0, k as int)),
                    any == row.subrange(0, k as int).contains(true),
                decreases height - k,
            {
                let alive = match self.world.get(&(i, k)) {
                    Ok(v) => v,
                    Err(_) => false,
                };
                proof {
                    reveal_strlit("\u{2022}");
                    reveal_strlit(" ");
                }
                if alive {
                    line.append("\u{2022}");
                    any = true;
                } else {
                    line.append(" ");
                }
                assert(row.subrange(0, k + 1) =~= row.subrange(0, k as int).push(alive));
                proof {
                    let before = row.subrange(0, k as int);
                    let after = row.subrange(0, k + 1);
                    if alive {
                        assert(after[k as int] == true);
                    } else if any {
                        let j = choose|j: int| 0 <= j < before.len() && before[j] == true;
                        assert(after[j] == true);
                    }
                }
                assert(row_text(row.subrange(0, k + 1)) =~= row_text(row.subrange(0, k as int)).push(
                    glyph(alive),
                ));
                k = k + 1;
            }
            assert(row.subrange(0, height as int) =~= row);
            assert(cells.subrange(0, i + 1).drop_last() =~= cells.subrange(0, i as int));
            if any {
                proof {
                    reveal_strlit("\n");
                }
                data.append(line.as_str());
                data.append("\n");
            }
            assert(data@ =~= rendered(cells.subrange(0, i + 1)));
            i = i + 1;
        }
        assert(cells.subrange(0, width as int) =~= cells);
        data
    }

    /// Exchanges the two grids, hands the new current grid to the recorder
    /// under the current generation, then advances the generation.
    fn swap_buffers(&mut self)
        requires
            old(self).wf(),
            old(self).state < u64::MAX,
        ensures
            final(self).wf(),
            final(self).world == old(self).world_buffer,
            final(self).world_buffer == old(self).world,
            final(self).state == old(self).state + 1,
            final(self).history() == old(self).history().push((old(self).state, final(self).world@)),
    {
        std::mem::swap(&mut self.world, &mut self.world_buffer);
        self.recorder.record(self.state, &self.world);
        self.state = self.state + 1;
    }

    /// Computes the next generation into the buffer, makes it current,
    /// records it under the generation before the step and advances the
    /// generation by one.
    pub fn step(&mut self)
        requires
            old(self).wf(),
            old(self).generation() < u64::MAX,
        ensures
            final(self).wf(),
            final(self).grid() == old(self).grid().step(),
            final(self).generation() == old(self).generation() + 1,
            final(self).history() == old(self).history().push(
                (old(self).generation() as u64, final(self).grid()),
            ),
    {
        let ghost start = self.world@;
        let (width, height) = self.world.get_bounds();
        let mut i: usize = 0;
        while i < width
            invariant
                self.wf(),
                self.world@ == start,
                self.state == old(self).state,
                self.recorder == old(self).recorder,
                width == start.width,
                height == start.height,
                i <= width,
                forall|r: int, c: int|
                    0 <= r < i && 0 <= c < height ==> #[trigger] self.world_buffer@.cells[r][c]
                        == start.step().cells[r][c],
            decreases width - i,
        {
            let mut k: usize = 0;
            while k < height
                invariant
                    self.wf(),
                    self.world@ == start,
                    self.state == old(self).state,
                    self.recorder == old(self).recorder,
                    width == start.width,
                    height == start.height,
                    i < width,
                    k <= height,
                    forall|r: int, c: int|
                        (0 <= r < i && 0 <= c < height) || (r == i && 0 <= c < k)
                            ==> #[trigger] self.world_buffer@.cells[r][c] == start.step().cells[r][c],
                decreases height - k,
            {
                let neighbours = self.world.get_neighbours(&(i, k));
                let alive = match self.world.get(&(i, k)) {
                    Ok(v) => v,
                    Err(_) => false,
                };
                let next = neighbours == 3 || (neighbours == 2 && alive);
                assert(next == next_state(start.cells[i as int][k as int], neighbours as nat));
                let _ = self.world_buffer.set(&(i, k), next);
                k = k + 1;
            }
            i = i + 1;
        }
        assert(self.world_buffer@.cells =~~= start.step().cells);
        self.swap_buffers();
    }

    /// Runs `cnt` steps in order.
    pub fn simulate(&mut self, cnt: u64)
        requires
            old(self).wf(),
            old(self).generation() + cnt <= u64::MAX,
        ensures
            final(self).wf(),
            final(self).grid() == old(self).grid().evolve(cnt as nat),
            final(self).generation() == old(self).generation() + cnt,
            final(self).history() == old(self).history() + run_records(
                old(self).grid(),
                old(self).generation(),
                cnt as nat,
            ),
    {
        let mut n: u64 = 0;
        while n < cnt
            invariant
                n <= cnt,
                self.wf(),
                old(self).generation() + cnt <= u64::MAX,
                self.grid() == old(self).grid().evolve(n as nat),
                self.generation() == old(self).generation() + n,
                self.history() == old(self).history() + run_records(
                    old(self).grid(),
                    old(self).generation(),
                    n as nat,
                ),
            decreases cnt - n,
        {
            self.step();
            assert(run_records(old(self).grid(), old(self).generation(), (n + 1) as nat) =~= run_records(
                old(self).grid(),
                old(self).generation(),
                n as nat,
            ).push(((self.generation() - 1) as u64, self.grid())));
            n = n + 1;
        }
    }
}

} // verus!
