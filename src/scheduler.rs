use vstd::prelude::*;
use crate::audio::{available, fresh_cursor, CursorView, Frame, Registry};
use crate::clock::{advanced, Clock};
use crate::grid::{in_grid, Grid};
use crate::mixer::{Intake, SubmitError};

verus! {

/// What one fired step did: cursors queued, cursors the full intake turned
/// away, and active rows that had no playable sound.
#[derive(Debug, Clone, Copy, PartialEq, Eq, Structural)]
pub struct FireReport {
    pub submitted: usize,
    pub missed: usize,
    pub unavailable: usize,
}

/// The intake and the counts after some rows of a fired step were handled.
pub struct FireModel {
    pub queue: Seq<CursorView>,
    pub submitted: nat,
    pub missed: nat,
    pub unavailable: nat,
}

/// Whether row `r` is on at `step`.
pub open spec fn row_fires(g: Seq<Seq<bool>>, step_count: nat, step: int, r: int) -> bool {
    in_grid(g, step_count, r, step) && g[r][step]
}

/// The first `k` rows handled in order for a fired `step`: each active row
/// with a playable sound queues a fresh cursor when the intake, of capacity
/// `cap`, has room, and counts as missed when it has not; an active row
/// without one counts as unavailable.
pub open spec fn fire_rows(
    g: Seq<Seq<bool>>,
    step_count: nat,
    reg: Seq<Option<Seq<Frame>>>,
    step: int,
    queue: Seq<CursorView>,
    cap: nat,
    k: nat,
) -> FireModel
    decreases k,
{
    if k == 0 {
        FireModel { queue, submitted: 0, missed: 0, unavailable: 0 }
    } else {
        let m = fire_rows(g, step_count, reg, step, queue, cap, (k - 1) as nat);
        let r = k - 1;
        if !row_fires(g, step_count, step, r) {
            m
        } else if !available(reg, r) {
            FireModel { unavailable: m.unavailable + 1, ..m }
        } else if m.queue.len() < cap {
            FireModel {
                queue: m.queue.push(fresh_cursor(reg[r].unwrap(), r as nat)),
                submitted: m.submitted + 1,
                ..m
            }
        } else {
            FireModel { missed: m.missed + 1, ..m }
        }
    }
}

/// Whether a report gives the counts of a model.
pub open spec fn reports(r: FireReport, m: FireModel) -> bool {
    &&& r.submitted == m.submitted
    &&& r.missed == m.missed
    &&& r.unavailable == m.unavailable
}

/// For every row on at `step`, in grid order, opens a fresh cursor over the
/// row's sound and offers it to `intake` without blocking.
pub fn on_step_fired(grid: &Grid, registry: &Registry, step: usize, intake: &mut Intake) -> (r:
    FireReport)
    requires
        grid.wf(),
    ensures
        final(intake).spec_capacity() == old(intake).spec_capacity(),
        final(intake)@ == fire_rows(
            grid@,
            grid.spec_step_count(),
            registry@,
            step as int,
            old(intake)@,
            old(intake).spec_capacity(),
            grid@.len(),
        ).queue,
        reports(
            r,
            fire_rows(
                grid@,
                grid.spec_step_count(),
                registry@,
                step as int,
                old(intake)@,
                old(intake).spec_capacity(),
                grid@.len(),
            ),
        ),
{
    let ghost g = grid@;
    let ghost sc = grid.spec_step_count();
    let ghost q = intake@;
    let ghost cap = intake.spec_capacity();
    let mut report = FireReport { submitted: 0, missed: 0, unavailable: 0 };
    let rows = grid.row_count();
    let mut r: usize = 0;
    while r < rows
        invariant
            r <= rows,
            rows == g.len(),
            g == grid@,
            sc == grid.spec_step_count(),
            grid.wf(),
            intake.spec_capacity() == cap,
            report.submitted + report.missed + report.unavailable <= r,
            intake@ == fire_rows(g, sc, registry@, step as int, q, cap, r as nat).queue,
            reports(report, fire_rows(g, sc, registry@, step as int, q, cap, r as nat)),
        decreases rows - r,
    {
        let on = match grid.is_active(r, step) {
            Ok(b) => b,
            Err(_) => false,
        };
        if on {
            match registry.open(r) {
                Ok(cursor) => {
                    match intake.try_submit(cursor) {
                        Ok(()) => {
                            report.submitted = report.submitted + 1;
                        },
                        Err(SubmitError::Full) => {
                            report.missed = report.missed + 1;
                        },
                    }
                },
                Err(_) => {
                    report.unavailable = report.unavailable + 1;
                },
            }
        }
        r = r + 1;
    }
    report
}

/// One tick of the logic side: advances the clock and, when a step fires,
/// hands it to `on_step_fired`. Returns what the fired step did.
pub fn tick(clock: &mut Clock, grid: &Grid, registry: &Registry, intake: &mut Intake) -> (r:
    Option<FireReport>)
    requires
        old(clock).wf(),
        grid.wf(),
    ensures
        final(clock).wf(),
        final(clock)@ == advanced(old(clock)@).0,
        final(intake).spec_capacity() == old(intake).spec_capacity(),
        advanced(old(clock)@).1 is None ==> r is None && final(intake)@ == old(intake)@,
        advanced(old(clock)@).1 matches Some(s) ==> {
            let m = fire_rows(
                grid@,
                grid.spec_step_count(),
                registry@,
                s as int,
                old(intake)@,
                old(intake).spec_capacity(),
                grid@.len(),
            );
            &&& r matches Some(rep) && reports(rep, m)
            &&& final(intake)@ == m.queue
        },
{
    match clock.advance() {
        Some(step) => Some(on_step_fired(grid, registry, step, intake)),
        None => None,
    }
}

} // verus!
