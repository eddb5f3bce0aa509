use vstd::prelude::*;
use std::sync::Arc;

verus! {

/// Lowest and highest value of a sample.
pub const SAMPLE_MIN: i16 = -32768;
pub const SAMPLE_MAX: i16 = 32767;

/// One stereo frame of signed 16-bit samples.
#[derive(Debug, Clone, Copy, PartialEq, Eq, Structural)]
pub struct Frame {
    pub left: i16,
    pub right: i16,
}

/// The sum of two samples, held at the ends of the sample range.
pub open spec fn mix_sample(a: i16, b: i16) -> i16 {
    if a + b > SAMPLE_MAX {
        SAMPLE_MAX
    } else if a + b < SAMPLE_MIN {
        SAMPLE_MIN
    } else {
        (a + b) as i16
    }
}

/// Two frames summed channel by channel.
pub open spec fn mix_frame(a: Frame, b: Frame) -> Frame {
    Frame { left: mix_sample(a.left, b.left), right: mix_sample(a.right, b.right) }
}

pub fn add_samples(a: i16, b: i16) -> (r: i16)
    ensures
        r == mix_sample(a, b),
{
    let s: i32 = a as i32 + b as i32;
    if s > SAMPLE_MAX as i32 {
        SAMPLE_MAX
    } else if s < SAMPLE_MIN as i32 {
        SAMPLE_MIN
    } else {
        s as i16
    }
}

pub fn add_frames(a: Frame, b: Frame) -> (r: Frame)
    ensures
        r == mix_frame(a, b),
{
    Frame { left: add_samples(a.left, b.left), right: add_samples(a.right, b.right) }
}

/// What a playback cursor holds: the sound's frames, how many of them it has
/// already emitted, and the row that triggered it.
pub struct CursorView {
    pub frames: Seq<Frame>,
    pub position: nat,
    pub row: nat,
}

/// Frames the cursor has still to emit.
pub open spec fn remaining(c: CursorView) -> nat {
    if c.position < c.frames.len() {
        (c.frames.len() - c.position) as nat
    } else {
        0
    }
}

/// A cursor with nothing left to emit.
pub open spec fn exhausted(c: CursorView) -> bool {
    remaining(c) == 0
}

/// Frames a cursor emits into a buffer of `len` frames.
pub open spec fn read_count(c: CursorView, len: nat) -> nat {
    if remaining(c) < len {
        remaining(c)
    } else {
        len
    }
}

/// The buffer after one cursor's next frames are summed into its front.
pub open spec fn mix_cursor(out: Seq<Frame>, c: CursorView) -> Seq<Frame> {
    Seq::new(
        out.len(),
        |i: int|
            if i < read_count(c, out.len()) {
                mix_frame(out[i], c.frames[c.position + i])
            } else {
                out[i]
            },
    )
}

/// The cursor after it emitted into a buffer of `len` frames.
pub open spec fn after_read(c: CursorView, len: nat) -> CursorView {
    CursorView { position: c.position + read_count(c, len), ..c }
}

/// A fresh cursor over a sound, for a row.
pub open spec fn fresh_cursor(frames: Seq<Frame>, row: nat) -> CursorView {
    CursorView { frames, position: 0, row }
}

/// One playing instance of a sound, with its own read position.
pub struct Cursor {
    sound: Arc<Vec<Frame>>,
    position: usize,
    row: usize,
}

impl View for Cursor {
    type V = CursorView;

    closed spec fn view(&self) -> CursorView {
        CursorView { frames: (*self.sound)@, position: self.position as nat, row: self.row as nat }
    }
}

impl Cursor {
    /// Number of frames emitted so far.
    pub fn frames_emitted(&self) -> (n: usize)
        ensures
            n == self@.position,
    {
        self.position
    }

    /// The row whose step started this cursor.
    pub fn row(&self) -> (r: usize)
        ensures
            r == self@.row,
    {
        self.row
    }

    /// Frames still to emit.
    pub fn remaining(&self) -> (n: usize)
        ensures
            n == remaining(self@),
    {
        let len = self.sound.len();
        if self.position < len {
            len - self.position
        } else {
            0
        }
    }

    /// Whether the cursor has emitted its whole sound.
    pub fn is_exhausted(&self) -> (b: bool)
        ensures
            b == exhausted(self@),
    {
        self.remaining() == 0
    }

    /// Sums this cursor's next frames into the front of `out`, as many as it
    /// has left and `out` can take, and moves the cursor past them.
    pub fn mix_into(&mut self, out: &mut Vec<Frame>)
        ensures
            final(out)@ == mix_cursor(old(out)@, old(self)@),
            final(self)@ == after_read(old(self)@, old(out)@.len()),
    {
        let left = self.remaining();
        let n: usize = if left < out.len() {
            left
        } else {
            out.len()
        };
        let ghost start = out@;
        let len = self.sound.len();
        let mut i: usize = 0;
        while i < n
            invariant
                0 <= i <= n,
                n == read_count(self@, start.len()),
                out@.len() == start.len(),
                len == (*self.sound)@.len(),
                n > 0 ==> self.position + n <= len,
                forall|j: int|
                    0 <= j < out@.len() ==> #[trigger] out@[j] == if j < i {
                        mix_frame(start[j], self@.frames[self@.position + j])
                    } else {
                        start[j]
                    },
            decreases n - i,
        {
            let f = add_frames(out[i], self.sound[self.position + i]);
            out[i] = f;
            i = i + 1;
        }
        assert(out@ =~= mix_cursor(start, self@));
        if n > 0 {
            self.position = self.position + n;
        }
    }
}

/// Relies on `Arc::clone`: the new handle points to the same value.
#[verifier::external_body]
fn share(sound: &Arc<Vec<Frame>>) -> (r: Arc<Vec<Frame>>)
    ensures
        (*r)@ == (**sound)@,
{
    Arc::clone(sound)
}

/// Error for a row whose sound cannot be played.
#[derive(Debug, Clone, Copy, PartialEq, Eq, Structural)]
pub enum SourceError {
    SourceUnavailable,
}

/// Whether a registry with this view can start a cursor for `row`: it holds a
/// sound for the row and that sound has at least one frame.
pub open spec fn available(reg: Seq<Option<Seq<Frame>>>, row: int) -> bool {
    &&& 0 <= row < reg.len()
    &&& reg[row] is Some
    &&& reg[row].unwrap().len() > 0
}

/// The decoded sound of each row, or none where it could not be loaded.
pub struct Registry {
    sounds: Vec<Option<Arc<Vec<Frame>>>>,
}

impl View for Registry {
    type V = Seq<Option<Seq<Frame>>>;

    closed spec fn view(&self) -> Seq<Option<Seq<Frame>>> {
        Seq::new(
            self.sounds@.len(),
            |r: int|
                match self.sounds@[r] {
                    Some(s) => Some((*s)@),
                    None => None,
                },
        )
    }
}

impl Registry {
    /// A registry with no rows.
    pub fn new() -> (r: Registry)
        ensures
            r@ == Seq::<Option<Seq<Frame>>>::empty(),
    {
        Registry { sounds: Vec::new() }
    }

    /// Adds the sound of the next row, or records that it has none.
    pub fn push(&mut self, sound: Option<Vec<Frame>>)
        ensures
            final(self)@ == old(self)@.push(
                match sound {
                    Some(v) => Some(v@),
                    None => None,
                },
            ),
    {
        let entry = match sound {
            Some(v) => Some(Arc::new(v)),
            None => None,
        };
        self.sounds.push(entry);
        assert(self@ =~= old(self)@.push(
            match sound {
                Some(v) => Some(v@),
                None => None,
            },
        ));
    }

    /// Number of rows the registry knows.
    pub fn len(&self) -> (n: usize)
        ensures
            n == self@.len(),
    {
        self.sounds.len()
    }

    /// A fresh cursor at the start of `row`'s sound; `SourceUnavailable` when
    /// the row has no sound or its sound is empty.
    pub fn open(&self, row: usize) -> (r: Result<Cursor, SourceError>)
        ensures
            available(self@, row as int) ==> (r matches Ok(c) && c@ == fresh_cursor(
                self@[row as int].unwrap(),
                row as nat,
            )),
            !available(self@, row as int) ==> r == Err::<Cursor, SourceError>(
                SourceError::SourceUnavailable,
            ),
    {
        if row >= self.sounds.len() {
            return Err(SourceError::SourceUnavailable);
        }
        match &self.sounds[row] {
            Some(s) => {
                if s.len() == 0 {
                    Err(SourceError::SourceUnavailable)
                } else {
                    Ok(Cursor { sound: share(s), position: 0, row })
                }
            },
            None => Err(SourceError::SourceUnavailable),
        }
    }
}

} // verus!
