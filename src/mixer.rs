use vstd::prelude::*;
use crate::audio::{
    after_read, exhausted, mix_cursor, mix_frame, read_count, remaining, Cursor, CursorView, Frame,
};

verus! {

/// The views of a sequence of cursors.
pub open spec fn views(v: Seq<Cursor>) -> Seq<CursorView> {
    Seq::new(v.len(), |i: int| v[i]@)
}

/// The buffer after each cursor in turn has summed its next frames into it.
pub open spec fn mix_all(out: Seq<Frame>, cs: Seq<CursorView>) -> Seq<Frame>
    decreases cs.len(),
{
    if cs.len() == 0 {
        out
    } else {
        mix_cursor(mix_all(out, cs.drop_last()), cs.last())
    }
}

/// Every cursor after it emitted into a buffer of `len` frames.
pub open spec fn read_all(cs: Seq<CursorView>, len: nat) -> Seq<CursorView> {
    Seq::new(cs.len(), |i: int| after_read(cs[i], len))
}

/// The cursors that still have frames to emit, in their order.
pub open spec fn still_live(cs: Seq<CursorView>) -> Seq<CursorView>
    decreases cs.len(),
{
    if cs.len() == 0 {
        cs
    } else if exhausted(cs[0]) {
        still_live(cs.drop_first())
    } else {
        seq![cs[0]] + still_live(cs.drop_first())
    }
}

/// Error for a cursor the intake had no room for: a missed trigger.
#[derive(Debug, Clone, Copy, PartialEq, Eq, Structural)]
pub enum SubmitError {
    Full,
}

/// Bounded queue of new cursors on their way to the mixer.
pub struct Intake {
    queue: Vec<Cursor>,
    capacity: usize,
}

impl View for Intake {
    type V = Seq<CursorView>;

    closed spec fn view(&self) -> Seq<CursorView> {
        views(self.queue@)
    }
}

impl Intake {
    pub closed spec fn spec_capacity(&self) -> nat {
        self.capacity as nat
    }

    /// An empty intake that holds at most `capacity` cursors.
    pub fn new(capacity: usize) -> (r: Intake)
        ensures
            r@ == Seq::<CursorView>::empty(),
            r.spec_capacity() == capacity,
    {
        let r = Intake { queue: Vec::new(), capacity };
        assert(r@ =~= Seq::<CursorView>::empty());
        r
    }

    pub fn capacity(&self) -> (n: usize)
        ensures
            n == self.spec_capacity(),
    {
        self.capacity
    }

    /// Number of cursors waiting.
    pub fn len(&self) -> (n: usize)
        ensures
            n == self@.len(),
    {
        self.queue.len()
    }

    /// The waiting cursor at position `i`.
    pub fn get(&self, i: usize) -> (c: &Cursor)
        requires
            i < self@.len(),
        ensures
            c@ == self@[i as int],
    {
        &self.queue[i]
    }

    /// Takes every waiting cursor out, in order, leaving the intake empty.
    pub fn take_all(&mut self) -> (v: Vec<Cursor>)
        ensures
            views(v@) == old(self)@,
            final(self)@ == Seq::<CursorView>::empty(),
            final(self).spec_capacity() == old(self).spec_capacity(),
    {
        let mut v: Vec<Cursor> = Vec::new();
        v.append(&mut self.queue);
        assert(views(v@) =~= old(self)@);
        assert(self@ =~= Seq::<CursorView>::empty());
        v
    }

    /// Queues `c` when there is room; otherwise drops it and reports `Full`.
    /// Never blocks.
    pub fn try_submit(&mut self, c: Cursor) -> (r: Result<(), SubmitError>)
        ensures
            final(self).spec_capacity() == old(self).spec_capacity(),
            old(self)@.len() < old(self).spec_capacity() ==> r is Ok && final(self)@ == old(
                self,
            )@.push(c@),
            old(self)@.len() >= old(self).spec_capacity() ==> r == Err::<(), SubmitError>(
                SubmitError::Full,
            ) && final(self)@ == old(self)@,
    {
        if self.queue.len() < self.capacity {
            self.queue.push(c);
            assert(self@ =~= old(self)@.push(c@));
            Ok(())
        } else {
            Err(SubmitError::Full)
        }
    }
}

/// The live cursors of the render path.
pub struct Mixer {
    live: Vec<Cursor>,
}

impl View for Mixer {
    type V = Seq<CursorView>;

    closed spec fn view(&self) -> Seq<CursorView> {
        views(self.live@)
    }
}

proof fn lemma_mix_all_len(out: Seq<Frame>, cs: Seq<CursorView>)
    ensures
        mix_all(out, cs).len() == out.len(),
    decreases cs.len(),
{
    if cs.len() > 0 {
        lemma_mix_all_len(out, cs.drop_last());
    }
}

impl Mixer {
    /// A mixer with no live cursors and room for `capacity` of them before the
    /// live set has to grow.
    pub fn new(capacity: usize) -> (m: Mixer)
        ensures
            m@ == Seq::<CursorView>::empty(),
    {
        let m = Mixer { live: Vec::with_capacity(capacity) };
        assert(m@ =~= Seq::<CursorView>::empty());
        m
    }

    /// Number of live cursors.
    pub fn live_count(&self) -> (n: usize)
        ensures
            n == self@.len(),
    {
        self.live.len()
    }

    /// The live cursor at position `i`.
    pub fn live_cursor(&self, i: usize) -> (c: &Cursor)
        requires
            i < self@.len(),
        ensures
            c@ == self@[i as int],
    {
        &self.live[i]
    }

    /// Fills the next output buffer: takes every waiting cursor from `intake`
    /// into the live set, sums each live cursor's next frames into `out` in
    /// order, then drops the cursors that have emitted their whole sound.
    pub fn render(&mut self, intake: &mut Intake, out: &mut Vec<Frame>)
        ensures
            final(intake)@ == Seq::<CursorView>::empty(),
            final(intake).spec_capacity() == old(intake).spec_capacity(),
            final(out)@ == mix_all(old(out)@, old(self)@ + old(intake)@),
            final(self)@ == still_live(read_all(old(self)@ + old(intake)@, old(out)@.len())),
    {
        let ghost first = self@ + intake@;
        self.live.append(&mut intake.queue);
        assert(intake@ =~= Seq::<CursorView>::empty());
        assert(self@ =~= first);
        let ghost start = out@;
        let ghost len = out@.len();
        let n = self.live.len();
        let mut i: usize = 0;
        while i < n
            invariant
                0 <= i <= n,
                n == first.len(),
                self.live@.len() == n,
                out@.len() == len,
                len == start.len(),
                out@ == mix_all(start, first.subrange(0, i as int)),
                forall|j: int| 0 <= j < i ==> #[trigger] self@[j] == after_read(first[j], len),
                forall|j: int| i <= j < n ==> #[trigger] self@[j] == first[j],
            decreases n - i,
        {
            let ghost pre_live = self@;
            let ghost pre_out = out@;
            proof {
                assert(first.subrange(0, i + 1).drop_last() =~= first.subrange(0, i as int));
                assert(first.subrange(0, i + 1).last() == first[i as int]);
                lemma_mix_all_len(start, first.subrange(0, i as int));
            }
            let ghost pre_vec = self.live@;
            assert(pre_live[i as int] == first[i as int]);
            {
                let cur: &mut Cursor = &mut self.live[i];
                cur.mix_into(out);
            }
            assert(self.live@.len() == pre_vec.len());
            assert(self.live@[i as int]@ == after_read(first[i as int], len));
            assert(forall|j: int| 0 <= j < n && j != i ==> self.live@[j] == pre_vec[j]);
            assert(self@ =~= pre_live.update(i as int, after_read(first[i as int], len)));
            assert(out@ == mix_cursor(pre_out, first[i as int]));
            i = i + 1;
        }
        assert(first.subrange(0, n as int) =~= first);
        let ghost read = read_all(first, len);
        assert(self@ =~= read);
        let mut k: usize = n;
        while k > 0
            invariant
                k <= n,
                n == read.len(),
                k <= self.live@.len(),
                self@ == read.subrange(0, k as int) + still_live(read.subrange(k as int, n as int)),
            decreases k,
        {
            proof {
                assert(read.subrange(k - 1, n as int).drop_first() =~= read.subrange(
                    k as int,
                    n as int,
                ));
            }
            let ghost pre = self@;
            assert(pre[k - 1] == read[k - 1]);
            if self.live[k - 1].is_exhausted() {
                self.live.remove(k - 1);
                assert(self@ =~= pre.remove(k - 1));
                assert(self@ =~= read.subrange(0, k - 1) + still_live(
                    read.subrange(k - 1, n as int),
                ));
            } else {
                assert(self@ =~= read.subrange(0, k - 1) + still_live(
                    read.subrange(k - 1, n as int),
                ));
            }
            k = k - 1;
        }
        assert(read.subrange(0, n as int) =~= read);
        assert(self@ =~= still_live(read));
    }
}

/// Two cursors that both cover slot `i` of a silent buffer leave the sum of
/// their two frames there, when that sum stays within the sample range.
pub proof fn lemma_mix_is_additive(out: Seq<Frame>, a: CursorView, b: CursorView, i: int)
    requires
        0 <= i < out.len(),
        out[i] == (Frame { left: 0, right: 0 }),
        i < read_count(a, out.len()),
        i < read_count(b, out.len()),
        i16::MIN <= a.frames[a.position + i].left + b.frames[b.position + i].left <= i16::MAX,
        i16::MIN <= a.frames[a.position + i].right + b.frames[b.position + i].right <= i16::MAX,
    ensures
        mix_all(out, seq![a, b])[i].left == a.frames[a.position + i].left + b.frames[b.position
            + i].left,
        mix_all(out, seq![a, b])[i].right == a.frames[a.position + i].right + b.frames[b.position
            + i].right,
{
    let s = seq![a, b];
    assert(s.drop_last() =~= seq![a]);
    assert(seq![a].drop_last() =~= Seq::<CursorView>::empty());
    let once = mix_cursor(out, a);
    assert(mix_all(out, Seq::<CursorView>::empty()) == out);
    assert(seq![a].last() == a);
    assert(s.last() == b);
    assert(mix_all(out, seq![a]) == once);
    assert(once[i] == mix_frame(out[i], a.frames[a.position + i]));
}

/// A cursor whose last frame falls within a buffer of `len` frames is
/// exhausted after that render, no exhausted cursor stays live, and an
/// exhausted cursor adds nothing to any later buffer.
pub proof fn lemma_retired_after_last_frame(cs: Seq<CursorView>, len: nat, out: Seq<Frame>)
    ensures
        forall|j: int|
            0 <= j < cs.len() && remaining(cs[j]) <= len ==> exhausted(
                #[trigger] read_all(cs, len)[j],
            ),
        forall|j: int|
            0 <= j < still_live(read_all(cs, len)).len() ==> !exhausted(
                #[trigger] still_live(read_all(cs, len))[j],
            ),
        forall|c: CursorView| exhausted(c) ==> #[trigger] mix_cursor(out, c) == out,
{
    lemma_still_live_not_exhausted(read_all(cs, len));
    assert forall|c: CursorView| exhausted(c) implies #[trigger] mix_cursor(out, c) == out by {
        assert(mix_cursor(out, c) =~= out);
    }
}

proof fn lemma_still_live_not_exhausted(cs: Seq<CursorView>)
    ensures
        forall|j: int|
            0 <= j < still_live(cs).len() ==> !exhausted(#[trigger] still_live(cs)[j]),
    decreases cs.len(),
{
    if cs.len() > 0 {
        lemma_still_live_not_exhausted(cs.drop_first());
        let rest = still_live(cs.drop_first());
        if exhausted(cs[0]) {
            assert(still_live(cs) == rest);
        } else {
            assert(still_live(cs) == seq![cs[0]] + rest);
            assert forall|j: int| 0 <= j < still_live(cs).len() implies !exhausted(
                #[trigger] still_live(cs)[j],
            ) by {
                if j > 0 {
                    assert((seq![cs[0]] + rest)[j] == rest[j - 1]);
                } else {
                    assert((seq![cs[0]] + rest)[j] == cs[0]);
                }
            }
        }
    }
}

} // verus!
