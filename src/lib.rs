//! A grid step sequencer core: a pattern of on/off cells, a tick-driven step
//! clock, a scheduler that turns fired steps into playback cursors, and a mixer
//! that sums live cursors into an output buffer and retires exhausted ones.
//!
//! Samples are signed 16-bit PCM values; overlapping sounds are summed with
//! saturation at the sample range.
mod grid;

pub use grid::{Grid, GridError, Row};
mod clock;

pub use clock::{Clock, ClockModel};
mod audio;

pub use audio::{Cursor, CursorView, Frame, Registry, SourceError};
mod mixer;

pub use mixer::{Intake, Mixer, SubmitError};
mod scheduler;

pub use scheduler::{on_step_fired, tick, FireReport};
