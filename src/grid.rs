use vstd::prelude::*;

verus! {

/// Error for a cell address that lies outside the grid.
#[derive(Debug, Clone, Copy, PartialEq, Eq, Structural)]
pub enum GridError {
    OutOfRange,
}

/// One instrument track: the name of its sound and its on/off steps.
pub struct Row {
    pub sample: String,
    pub cells: Vec<bool>,
}

/// A pattern where every step starts off.
pub open spec fn all_off(step_count: nat) -> Seq<bool> {
    Seq::new(step_count, |i: int| false)
}

impl Row {
    /// A row for the named sound with `step_count` steps, all off.
    pub fn new(sample: String, step_count: usize) -> (r: Row)
        ensures
            r.sample@ == sample@,
            r.cells@ == all_off(step_count as nat),
    {
        let mut cells: Vec<bool> = Vec::with_capacity(step_count);
        let mut i: usize = 0;
        while i < step_count
            invariant
                i <= step_count,
                cells@ == all_off(i as nat),
            decreases step_count - i,
        {
            cells.push(false);
            i = i + 1;
        }
        Row { sample, cells }
    }
}

/// The pattern: rows of equal length, each cell on or off.
pub struct Grid {
    rows: Vec<Row>,
    step_count: usize,
}

/// The grid after flipping one cell.
pub open spec fn toggled(g: Seq<Seq<bool>>, row: int, step: int) -> Seq<Seq<bool>> {
    g.update(row, g[row].update(step, !g[row][step]))
}

/// Whether `(row, step)` addresses a cell of a grid with this view and width.
pub open spec fn in_grid(g: Seq<Seq<bool>>, step_count: nat, row: int, step: int) -> bool {
    0 <= row < g.len() && 0 <= step < step_count
}

impl View for Grid {
    type V = Seq<Seq<bool>>;

    closed spec fn view(&self) -> Seq<Seq<bool>> {
        Seq::new(self.rows@.len(), |r: int| self.rows@[r].cells@)
    }
}

impl Grid {
    /// Every row has exactly `step_count` cells.
    pub closed spec fn wf(&self) -> bool {
        forall|r: int| 0 <= r < self.rows@.len() ==> #[trigger] self.rows@[r].cells@.len()
            == self.step_count
    }

    pub closed spec fn spec_step_count(&self) -> nat {
        self.step_count as nat
    }

    /// The sound name of each row.
    pub closed spec fn samples(&self) -> Seq<Seq<char>> {
        Seq::new(self.rows@.len(), |r: int| self.rows@[r].sample@)
    }

    /// A grid with one row per sound name and `step_count` steps, all off.
    pub fn new(samples: Vec<String>, step_count: usize) -> (g: Grid)
        ensures
            g.wf(),
            g.spec_step_count() == step_count,
            g@.len() == samples@.len(),
            forall|r: int| 0 <= r < samples@.len() ==> #[trigger] g@[r] == all_off(step_count as nat),
            forall|r: int| 0 <= r < samples@.len() ==> #[trigger] g.samples()[r] == samples@[r]@,
    {
        let mut rows: Vec<Row> = Vec::with_capacity(samples.len());
        let mut samples = samples;
        let ghost names = samples@;
        let n = samples.len();
        let mut i: usize = 0;
        // Take the names from the back and put them in place afterwards.
        let mut rev: Vec<Row> = Vec::with_capacity(n);
        while i < n
            invariant
                i <= n,
                n == names.len(),
                samples@ == names.subrange(0, n - i),
                rev@.len() == i,
                forall|k: int| 0 <= k < i ==> #[trigger] rev@[k].sample@ == names[n - 1 - k]@,
                forall|k: int| 0 <= k < i ==> #[trigger] rev@[k].cells@ == all_off(step_count as nat),
            decreases n - i,
        {
            let name = samples.pop().unwrap();
            rev.push(Row::new(name, step_count));
            i = i + 1;
        }
        while rev.len() > 0
            invariant
                rows@.len() + rev@.len() == n,
                n == names.len(),
                forall|k: int| 0 <= k < rows@.len() ==> #[trigger] rows@[k].sample@ == names[k]@,
                forall|k: int| 0 <= k < rows@.len() ==> #[trigger] rows@[k].cells@ == all_off(step_count as nat),
                forall|k: int| 0 <= k < rev@.len() ==> #[trigger] rev@[k].sample@ == names[n - 1 - k]@,
                forall|k: int| 0 <= k < rev@.len() ==> #[trigger] rev@[k].cells@ == all_off(step_count as nat),
            decreases rev@.len(),
        {
            let row = rev.pop().unwrap();
            rows.push(row);
        }
        Grid { rows, step_count }
    }

    /// Number of rows.
    pub fn row_count(&self) -> (n: usize)
        ensures
            n == self@.len(),
    {
        self.rows.len()
    }

    /// Number of steps in every row.
    pub fn step_count(&self) -> (n: usize)
        ensures
            n == self.spec_step_count(),
    {
        self.step_count
    }

    /// Whether the cell `(row, step)` is on; `OutOfRange` when it is not a cell.
    pub fn is_active(&self, row: usize, step: usize) -> (r: Result<bool, GridError>)
        requires
            self.wf(),
        ensures
            in_grid(self@, self.spec_step_count(), row as int, step as int) ==> r == Ok::<
                bool,
                GridError,
            >(self@[row as int][step as int]),
            !in_grid(self@, self.spec_step_count(), row as int, step as int) ==> r == Err::<
                bool,
                GridError,
            >(GridError::OutOfRange),
    {
        if row < self.rows.len() && step < self.step_count {
            Ok(self.rows[row].cells[step])
        } else {
            Err(GridError::OutOfRange)
        }
    }

    /// Flips the cell `(row, step)`; `OutOfRange`, with the grid unchanged, when
    /// it is not a cell.
    pub fn toggle(&mut self, row: usize, step: usize) -> (r: Result<(), GridError>)
        requires
            old(self).wf(),
        ensures
            final(self).wf(),
            final(self).spec_step_count() == old(self).spec_step_count(),
            final(self).samples() == old(self).samples(),
            in_grid(old(self)@, old(self).spec_step_count(), row as int, step as int) ==> {
                &&& r is Ok
                &&& final(self)@ == toggled(old(self)@, row as int, step as int)
            },
            !in_grid(old(self)@, old(self).spec_step_count(), row as int, step as int) ==> {
                &&& r == Err::<(), GridError>(GridError::OutOfRange)
                &&& final(self)@ == old(self)@
            },
    {
        if row < self.rows.len() && step < self.step_count {
            let v = self.rows[row].cells[step];
            self.rows[row].cells[step] = !v;
            proof {
                assert(self@ =~= toggled(old(self)@, row as int, step as int));
                assert(self.samples() =~= old(self).samples());
            }
            Ok(())
        } else {
            Err(GridError::OutOfRange)
        }
    }
}

/// Toggling the same cell twice gives back the grid it started from.
pub proof fn lemma_toggle_involution(g: Seq<Seq<bool>>, step_count: nat, row: int, step: int)
    requires
        forall|r: int| 0 <= r < g.len() ==> #[trigger] g[r].len() == step_count,
        in_grid(g, step_count, row, step),
    ensures
        toggled(toggled(g, row, step), row, step) == g,
{
    assert(toggled(g, row, step)[row] =~= g[row].update(step, !g[row][step]));
    assert(toggled(toggled(g, row, step), row, step)[row] =~= g[row]);
    assert(toggled(toggled(g, row, step), row, step) =~= g);
}

} // verus!
