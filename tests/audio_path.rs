use step_sequencer::{
    on_step_fired, tick, Clock, FireReport, Frame, Grid, Intake, Mixer, Registry, SourceError,
    SubmitError,
};

fn constant(value: i16, frames: usize) -> Vec<Frame> {
    vec![Frame { left: value, right: -value }; frames]
}

fn silent(frames: usize) -> Vec<Frame> {
    vec![Frame { left: 0, right: 0 }; frames]
}

fn registry(sounds: Vec<Option<Vec<Frame>>>) -> Registry {
    let mut reg = Registry::new();
    for s in sounds {
        reg.push(s);
    }
    reg
}

#[test]
fn open_gives_fresh_cursor_over_the_sound() {
    let reg = registry(vec![Some(constant(5, 3)), None, Some(vec![])]);
    assert_eq!(reg.len(), 3);
    let c = reg.open(0).ok().unwrap();
    assert_eq!(c.row(), 0);
    assert_eq!(c.frames_emitted(), 0);
    assert_eq!(c.remaining(), 3);
    assert!(!c.is_exhausted());
    assert_eq!(reg.open(1).err(), Some(SourceError::SourceUnavailable));
    assert_eq!(reg.open(2).err(), Some(SourceError::SourceUnavailable));
    assert_eq!(reg.open(3).err(), Some(SourceError::SourceUnavailable));
}

#[test]
fn mixer_sums_two_cursors() {
    let reg = registry(vec![Some(constant(100, 8)), Some(constant(23, 8))]);
    let mut intake = Intake::new(4);
    assert_eq!(intake.try_submit(reg.open(0).ok().unwrap()), Ok(()));
    assert_eq!(intake.try_submit(reg.open(1).ok().unwrap()), Ok(()));
    let mut mixer = Mixer::new(4);
    let mut out = silent(4);
    mixer.render(&mut intake, &mut out);
    assert_eq!(intake.len(), 0);
    assert_eq!(out, vec![Frame { left: 123, right: -123 }; 4]);
    assert_eq!(mixer.live_count(), 2);
    assert_eq!(mixer.live_cursor(0).frames_emitted(), 4);
    assert_eq!(mixer.live_cursor(1).frames_emitted(), 4);
}

#[test]
fn mixer_adds_onto_existing_content() {
    let reg = registry(vec![Some(vec![Frame { left: 1, right: 2 }, Frame { left: 3, right: 4 }])]);
    let mut intake = Intake::new(1);
    intake.try_submit(reg.open(0).ok().unwrap()).unwrap();
    let mut mixer = Mixer::new(1);
    let mut out = vec![Frame { left: 10, right: 10 }; 3];
    mixer.render(&mut intake, &mut out);
    assert_eq!(
        out,
        vec![
            Frame { left: 11, right: 12 },
            Frame { left: 13, right: 14 },
            Frame { left: 10, right: 10 },
        ]
    );
    assert_eq!(mixer.live_count(), 0);
}

#[test]
fn mixer_saturates_at_sample_range() {
    let reg = registry(vec![Some(constant(30000, 2)), Some(constant(10000, 2))]);
    let mut intake = Intake::new(2);
    intake.try_submit(reg.open(0).ok().unwrap()).unwrap();
    intake.try_submit(reg.open(1).ok().unwrap()).unwrap();
    let mut mixer = Mixer::new(2);
    let mut out = silent(2);
    mixer.render(&mut intake, &mut out);
    assert_eq!(out, vec![Frame { left: 32767, right: -32768 }; 2]);
}

#[test]
fn cursor_retires_after_its_last_frame() {
    // Five frames, buffers of two: the third render covers frame five.
    let reg = registry(vec![Some(constant(7, 5))]);
    let mut intake = Intake::new(1);
    intake.try_submit(reg.open(0).ok().unwrap()).unwrap();
    let mut mixer = Mixer::new(1);
    let mut out = silent(2);
    mixer.render(&mut intake, &mut out);
    assert_eq!(mixer.live_count(), 1);
    let mut out = silent(2);
    mixer.render(&mut intake, &mut out);
    assert_eq!(mixer.live_count(), 1);
    let mut out = silent(2);
    mixer.render(&mut intake, &mut out);
    assert_eq!(out, vec![Frame { left: 7, right: -7 }, Frame { left: 0, right: 0 }]);
    assert_eq!(mixer.live_count(), 0);
    let mut out = silent(2);
    mixer.render(&mut intake, &mut out);
    assert_eq!(out, silent(2));
}

#[test]
fn cursor_filling_the_buffer_exactly_retires_in_that_render() {
    let reg = registry(vec![Some(constant(3, 4))]);
    let mut intake = Intake::new(1);
    intake.try_submit(reg.open(0).ok().unwrap()).unwrap();
    let mut mixer = Mixer::new(1);
    let mut out = silent(4);
    mixer.render(&mut intake, &mut out);
    assert_eq!(out, constant(3, 4));
    assert_eq!(mixer.live_count(), 0);
}

#[test]
fn retirement_keeps_order_of_live_cursors() {
    let reg = registry(vec![Some(constant(1, 6)), Some(constant(2, 2)), Some(constant(3, 6))]);
    let mut intake = Intake::new(3);
    for r in 0..3 {
        intake.try_submit(reg.open(r).ok().unwrap()).unwrap();
    }
    let mut mixer = Mixer::new(3);
    let mut out = silent(3);
    mixer.render(&mut intake, &mut out);
    assert_eq!(out[0], Frame { left: 6, right: -6 });
    assert_eq!(out[2], Frame { left: 4, right: -4 });
    assert_eq!(mixer.live_count(), 2);
    assert_eq!(mixer.live_cursor(0).row(), 0);
    assert_eq!(mixer.live_cursor(1).row(), 2);
}

#[test]
fn full_intake_reports_missed_trigger() {
    let reg = registry(vec![Some(constant(1, 1))]);
    let mut intake = Intake::new(1);
    assert_eq!(intake.capacity(), 1);
    assert_eq!(intake.try_submit(reg.open(0).ok().unwrap()), Ok(()));
    assert_eq!(intake.try_submit(reg.open(0).ok().unwrap()), Err(SubmitError::Full));
    assert_eq!(intake.len(), 1);
}

#[test]
fn step_fires_active_rows_in_grid_order() {
    let names: Vec<String> = vec!["kick".into(), "snare".into(), "clap".into()];
    let mut grid = Grid::new(names, 16);
    grid.toggle(0, 5).unwrap();
    grid.toggle(2, 5).unwrap();
    grid.toggle(1, 6).unwrap();
    let reg = registry(vec![Some(constant(1, 4)), Some(constant(2, 4)), Some(constant(3, 4))]);
    let mut intake = Intake::new(8);
    let report = on_step_fired(&grid, &reg, 5, &mut intake);
    assert_eq!(report, FireReport { submitted: 2, missed: 0, unavailable: 0 });
    assert_eq!(intake.len(), 2);
    assert_eq!(intake.get(0).row(), 0);
    assert_eq!(intake.get(1).row(), 2);
}

#[test]
fn step_counts_missed_and_unavailable_rows() {
    let names: Vec<String> = vec!["a".into(), "b".into(), "c".into()];
    let mut grid = Grid::new(names, 4);
    for r in 0..3 {
        grid.toggle(r, 1).unwrap();
    }
    let reg = registry(vec![Some(constant(1, 4)), None, Some(constant(3, 4))]);
    let mut intake = Intake::new(1);
    let report = on_step_fired(&grid, &reg, 1, &mut intake);
    assert_eq!(report, FireReport { submitted: 1, missed: 1, unavailable: 1 });
    assert_eq!(intake.len(), 1);
    assert_eq!(intake.get(0).row(), 0);
}

#[test]
fn step_outside_pattern_fires_nothing() {
    let mut grid = Grid::new(vec!["a".into()], 4);
    grid.toggle(0, 0).unwrap();
    let reg = registry(vec![Some(constant(1, 4))]);
    let mut intake = Intake::new(4);
    let report = on_step_fired(&grid, &reg, 4, &mut intake);
    assert_eq!(report, FireReport { submitted: 0, missed: 0, unavailable: 0 });
    assert_eq!(intake.len(), 0);
}

#[test]
fn eight_ticks_over_four_steps_trigger_twice() {
    let mut grid = Grid::new(vec!["kick".into()], 4);
    grid.toggle(0, 0).unwrap();
    grid.toggle(0, 2).unwrap();
    let reg = registry(vec![Some(constant(9, 4))]);
    let mut clock = Clock::new(4, 2);
    let mut intake = Intake::new(16);
    let mut fired = vec![];
    for _ in 0..8 {
        if let Some(report) = tick(&mut clock, &grid, &reg, &mut intake) {
            fired.push((clock.current_step(), report.submitted));
        }
    }
    // Step 0 does not fire when the clock starts; it fires when the pattern wraps.
    assert_eq!(fired, vec![(1, 0), (2, 1), (3, 0), (0, 1)]);
    assert_eq!(intake.len(), 2);
    assert_eq!(clock.current_step(), 0);
}

#[test]
fn take_all_empties_intake_in_order() {
    let reg = registry(vec![Some(constant(1, 2)), Some(constant(2, 2))]);
    let mut intake = Intake::new(4);
    intake.try_submit(reg.open(1).ok().unwrap()).unwrap();
    intake.try_submit(reg.open(0).ok().unwrap()).unwrap();
    let taken = intake.take_all();
    assert_eq!(intake.len(), 0);
    assert_eq!(intake.capacity(), 4);
    let rows: Vec<usize> = taken.iter().map(|c| c.row()).collect();
    assert_eq!(rows, vec![1, 0]);
}
