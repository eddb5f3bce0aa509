use vstd::prelude::*;

verus! {

/// What a clock holds, as numbers.
pub struct ClockModel {
    pub step: nat,
    pub ticks: nat,
    pub ticks_per_step: nat,
    pub step_count: nat,
}

/// One tick: the clock after it, and the step that fired, if one did.
///
/// A step fires on the tick that brings the count since the last step up to
/// `ticks_per_step`; the count then starts again from zero.
pub open spec fn advanced(m: ClockModel) -> (ClockModel, Option<nat>) {
    if m.ticks + 1 >= m.ticks_per_step {
        let next = (m.step + 1) % m.step_count;
        (ClockModel { step: next, ticks: 0, ..m }, Some(next))
    } else {
        (ClockModel { ticks: m.ticks + 1, ..m }, None)
    }
}

/// `k` ticks in a row: the clock after them and how many steps fired.
pub open spec fn run(m: ClockModel, k: nat) -> (ClockModel, nat)
    decreases k,
{
    if k == 0 {
        (m, 0)
    } else {
        let (before, fired) = run(m, (k - 1) as nat);
        let (after, event) = advanced(before);
        (after, if event is Some {
            fired + 1
        } else {
            fired
        })
    }
}

/// Tick counter that moves a shared step cursor forward, wrapping at the
/// pattern length.
pub struct Clock {
    current_step: usize,
    ticks_since_step: usize,
    ticks_per_step: usize,
    step_count: usize,
}

impl View for Clock {
    type V = ClockModel;

    closed spec fn view(&self) -> ClockModel {
        ClockModel {
            step: self.current_step as nat,
            ticks: self.ticks_since_step as nat,
            ticks_per_step: self.ticks_per_step as nat,
            step_count: self.step_count as nat,
        }
    }
}

impl Clock {
    /// The step is a valid index and the tick count stays below the period.
    pub open spec fn wf(&self) -> bool {
        &&& self@.step < self@.step_count
        &&& (self@.ticks == 0 || self@.ticks < self@.ticks_per_step)
    }

    /// A clock on step 0 with no ticks counted. Step 0 does not fire here: the
    /// first step fires after `ticks_per_step` ticks, and it is step 1.
    pub fn new(step_count: usize, ticks_per_step: usize) -> (c: Clock)
        requires
            step_count > 0,
        ensures
            c.wf(),
            c@ == (ClockModel {
                step: 0,
                ticks: 0,
                ticks_per_step: ticks_per_step as nat,
                step_count: step_count as nat,
            }),
    {
        Clock { current_step: 0, ticks_since_step: 0, ticks_per_step, step_count }
    }

    pub fn current_step(&self) -> (s: usize)
        ensures
            s == self@.step,
    {
        self.current_step
    }

    pub fn ticks_since_step(&self) -> (t: usize)
        ensures
            t == self@.ticks,
    {
        self.ticks_since_step
    }

    pub fn ticks_per_step(&self) -> (t: usize)
        ensures
            t == self@.ticks_per_step,
    {
        self.ticks_per_step
    }

    pub fn step_count(&self) -> (n: usize)
        ensures
            n == self@.step_count,
    {
        self.step_count
    }

    /// Counts one tick; returns the new step when this tick moves the cursor.
    pub fn advance(&mut self) -> (fired: Option<usize>)
        requires
            old(self).wf(),
        ensures
            final(self).wf(),
            final(self)@ == advanced(old(self)@).0,
            fired matches Some(s) ==> advanced(old(self)@).1 == Some(s as nat),
            fired is None ==> advanced(old(self)@).1 is None,
    {
        if self.ticks_since_step + 1 >= self.ticks_per_step {
            self.ticks_since_step = 0;
            self.current_step = (self.current_step + 1) % self.step_count;
            Some(self.current_step)
        } else {
            self.ticks_since_step = self.ticks_since_step + 1;
            None
        }
    }
}

proof fn lemma_quiet_ticks(m: ClockModel, k: nat)
    requires
        m.ticks == 0,
        k < m.ticks_per_step,
    ensures
        run(m, k) == (ClockModel { ticks: k, ..m }, 0nat),
    decreases k,
{
    if k > 0 {
        lemma_quiet_ticks(m, (k - 1) as nat);
    }
}

/// Starting from a fresh step, `ticks_per_step` ticks fire exactly one step,
/// the next one modulo the pattern length, and leave the count at zero.
pub proof fn lemma_one_step_per_period(m: ClockModel)
    requires
        m.ticks == 0,
        m.ticks_per_step >= 1,
        m.step < m.step_count,
    ensures
        run(m, m.ticks_per_step).1 == 1,
        run(m, m.ticks_per_step).0 == (ClockModel {
            step: (m.step + 1) % m.step_count,
            ticks: 0,
            ..m
        }),
{
    lemma_quiet_ticks(m, (m.ticks_per_step - 1) as nat);
}

/// From the last step, one full period brings the cursor back to step 0.
pub proof fn lemma_wraps_to_start(m: ClockModel)
    requires
        m.ticks == 0,
        m.ticks_per_step >= 1,
        m.step_count >= 1,
        m.step == m.step_count - 1,
    ensures
        run(m, m.ticks_per_step).0.step == 0,
{
    lemma_one_step_per_period(m);
    assert((m.step + 1) % m.step_count == 0) by {
        vstd::arithmetic::div_mod::lemma_mod_self_0(m.step_count as int);
    }
}

} // verus!
