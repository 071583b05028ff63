use vstd::prelude::*;

use crate::world::{BoundsError, GridModel, World};

verus! {

/// The five cells of a glider whose bounding box starts at `(r, c)`, in
/// the order they are written.
pub open spec fn glider_cells(r: int, c: int) -> Seq<(int, int)> {
    seq![(r + 2, c), (r + 2, c + 1), (r + 2, c + 2), (r + 1, c + 2), (r, c + 1)]
}

/// The grid after marking `cells` alive in order, up to the first one
/// outside the grid.
pub open spec fn mark_cells(m: GridModel, cells: Seq<(int, int)>) -> GridModel
    decreases cells.len(),
{
    if cells.len() == 0 {
        m
    } else if m.in_bounds(cells[0].0, cells[0].1) {
        mark_cells(m.with_cell(cells[0].0, cells[0].1, true), cells.drop_first())
    } else {
        m
    }
}

/// Marking the cells of `cells` from index `k` on: the first is marked if
/// it lies inside the grid and the walk goes on, else the walk stops.
proof fn lemma_mark_from(m: GridModel, cells: Seq<(int, int)>, k: int)
    requires
        0 <= k < cells.len(),
    ensures
        mark_cells(m, cells.subrange(k, cells.len() as int)) == (if m.in_bounds(cells[k].0, cells[k].1) {
            mark_cells(m.with_cell(cells[k].0, cells[k].1, true), cells.subrange(k + 1, cells.len() as int))
        } else {
            m
        }),
{
    assert(cells.subrange(k, cells.len() as int).drop_first() =~= cells.subrange(k + 1, cells.len() as int));
}

/// Writes fixed patterns into a grid.
pub struct EntityFactory;

impl EntityFactory {
    /// Marks the cell at `(base.0 + dr, base.1 + dc)` alive.
    fn mark<W: World>(world: &mut W, base: (usize, usize), dr: usize, dc: usize) -> (r: Result<
        bool,
        BoundsError,
    >)
        requires
            old(world).model().wf(),
            dr <= 2,
            dc <= 2,
        ensures
            final(world).model().wf(),
            r is Ok <==> old(world).model().in_bounds(base.0 + dr, base.1 + dc),
            r is Ok ==> final(world).model() == old(world).model().with_cell(base.0 + dr, base.1 + dc, true),
            r is Err ==> final(world).model() == old(world).model(),
    {
        let _ = world.get_bounds();
        if base.0 > usize::MAX - dr || base.1 > usize::MAX - dc {
            return Err(BoundsError);
        }
        world.set(&(base.0 + dr, base.1 + dc), true)
    }

    /// Marks a glider alive with its bounding box at `coords`: the cells
    /// `(2,0), (2,1), (2,2), (1,2), (0,1)` relative to it, in that order.
    /// Fails at the first cell outside the grid, keeping the cells marked
    /// before it.
    pub fn glider<W: World>(coords: (usize, usize), world: &mut W) -> (r: Result<(), BoundsError>)
        requires
            old(world).model().wf(),
        ensures
            final(world).model().wf(),
            r is Ok <==> old(world).model().in_bounds(coords.0 + 2, coords.1 + 2),
            final(world).model() == mark_cells(
                old(world).model(),
                glider_cells(coords.0 as int, coords.1 as int),
            ),
    {
        let ghost cells = glider_cells(coords.0 as int, coords.1 as int);
        assert(cells.subrange(0, 5) =~= cells);
        assert(cells.subrange(5, 5) =~= Seq::<(int, int)>::empty());
        let offsets: [(usize, usize); 5] = [(2, 0), (2, 1), (2, 2), (1, 2), (0, 1)];
        let mut k: usize = 0;
        while k < 5
            invariant
                k <= 5,
                offsets@ == seq![(2usize, 0usize), (2, 1), (2, 2), (1, 2), (0, 1)],
                cells == glider_cells(coords.0 as int, coords.1 as int),
                world.model().wf(),
                world.model().width == old(world).model().width,
                world.model().height == old(world).model().height,
                forall|j: int| 0 <= j < k ==> old(world).model().in_bounds(#[trigger] cells[j].0, cells[j].1),
                mark_cells(old(world).model(), cells) == mark_cells(
                    world.model(),
                    cells.subrange(k as int, 5),
                ),
            decreases 5 - k,
        {
            let (dr, dc) = offsets[k];
            proof {
                lemma_mark_from(world.model(), cells, k as int);
            }
            match Self::mark(world, coords, dr, dc) {
                Ok(_) => {},
                Err(e) => {
                    return Err(e);
                },
            }
            k = k + 1;
        }
        assert(old(world).model().in_bounds(cells[2].0, cells[2].1));
        Ok(())
    }
}

} // verus!
