use vstd::prelude::*;

use crate::error::RenderError;

verus! {

/// How the fence-and-flush request on a frame's submission ended.
#[derive(Debug, PartialEq, Eq)]
pub enum FlushOutcome {
    /// The submission was flushed; its fence now tracks the frame.
    Flushed,
    /// The target was invalidated: the frame's work is abandoned.
    OutOfDate,
    /// Any other failure, with its description.
    Failed(String),
}

/// The in-flight frame fence: the frames whose GPU work the pending
/// completion token still tracks, oldest first, and the number of the next
/// frame to submit. With no frame tracked it is the "already complete"
/// sentinel.
pub struct FrameFence {
    next_frame: u64,
    in_flight: Vec<u64>,
}

/// Whether `frames` is ordered oldest first, every frame older than `next`.
pub open spec fn fence_wf(frames: Seq<u64>, next: nat) -> bool {
    &&& forall|k: int, m: int| 0 <= k < m < frames.len() ==> frames[k] < frames[m]
    &&& forall|k: int| 0 <= k < frames.len() ==> frames[k] < next
}

/// Whether the GPU reports `frame` done, given that it has completed every
/// frame up to `completed_through`.
pub open spec fn is_done(frame: u64, completed_through: Option<u64>) -> bool {
    match completed_through {
        Some(c) => frame <= c,
        None => false,
    }
}

/// What remains tracked after reclaiming the completed frames: the oldest
/// frames are released as long as they are done.
pub open spec fn cleaned(frames: Seq<u64>, completed_through: Option<u64>) -> Seq<u64>
    decreases frames.len(),
{
    if frames.len() > 0 && is_done(frames[0], completed_through) {
        cleaned(frames.drop_first(), completed_through)
    } else {
        frames
    }
}

/// What the fence tracks after a frame numbered `frame` was submitted and
/// its flush ended with `outcome`: the frame is added to the chain when it
/// was flushed; otherwise the chain is dropped and a fresh sentinel stands.
pub open spec fn after_flush(frames: Seq<u64>, frame: u64, outcome: FlushOutcome) -> Seq<u64> {
    match outcome {
        FlushOutcome::Flushed => frames.push(frame),
        _ => Seq::empty(),
    }
}

/// What the frame reports for a flush outcome: only a failure other than
/// an out-of-date target is an error.
pub open spec fn flush_result(outcome: FlushOutcome) -> Result<(), RenderError> {
    match outcome {
        FlushOutcome::Failed(cause) => Err(RenderError::FlushError(cause)),
        _ => Ok(()),
    }
}

impl FrameFence {
    /// The frames still tracked, oldest first.
    pub closed spec fn frames(&self) -> Seq<u64> {
        self.in_flight@
    }

    /// The number of the next frame to submit.
    pub closed spec fn next(&self) -> nat {
        self.next_frame as nat
    }

    pub open spec fn wf(&self) -> bool {
        fence_wf(self.frames(), self.next())
    }

    /// A fence that is already complete, before any frame.
    pub fn new() -> (r: FrameFence)
        ensures
            r.wf(),
            r.frames() == Seq::<u64>::empty(),
            r.next() == 0,
    {
        FrameFence { next_frame: 0, in_flight: Vec::new() }
    }

    /// Whether the fence is the "already complete" sentinel.
    pub fn is_complete(&self) -> (r: bool)
        ensures
            r == (self.frames().len() == 0),
    {
        self.in_flight.len() == 0
    }

    /// How many submitted frames the fence still tracks.
    pub fn in_flight_count(&self) -> (r: usize)
        ensures
            r == self.frames().len(),
    {
        self.in_flight.len()
    }

    /// The number of the next frame to submit.
    pub fn next_frame(&self) -> (r: u64)
        ensures
            r == self.next(),
    {
        self.next_frame
    }

    /// Whether the oldest tracked frame is reported done.
    fn oldest_done(&self, completed_through: Option<u64>) -> (r: bool)
        ensures
            r == (self.frames().len() > 0 && is_done(self.frames()[0], completed_through)),
    {
        if self.in_flight.len() == 0 {
            return false;
        }
        match completed_through {
            Some(c) => self.in_flight[0] <= c,
            None => false,
        }
    }

    /// Releases, without waiting, the tracked frames that the GPU reports
    /// done (every frame up to `completed_through`).
    pub fn cleanup_finished(&mut self, completed_through: Option<u64>)
        requires
            old(self).wf(),
        ensures
            final(self).wf(),
            final(self).frames() == cleaned(old(self).frames(), completed_through),
            final(self).next() == old(self).next(),
    {
        let ghost start = self.frames();
        let ghost next = self.next();
        while self.oldest_done(completed_through)
            invariant
                fence_wf(self.in_flight@, self.next_frame as nat),
                self.next() == next,
                cleaned(self.in_flight@, completed_through) == cleaned(start, completed_through),
            decreases self.in_flight.len(),
        {
            let ghost before = self.in_flight@;
            self.in_flight.remove(0);
            assert(self.in_flight@ =~= before.drop_first());
            assert forall|k: int, m: int| 0 <= k < m < self.in_flight@.len() implies self.in_flight@[k] < self.in_flight@[m] by {
                assert(self.in_flight@[k] == before[k + 1]);
                assert(self.in_flight@[m] == before[m + 1]);
            }
            assert forall|k: int| 0 <= k < self.in_flight@.len() implies self.in_flight@[k] < self.next_frame by {
                assert(self.in_flight@[k] == before[k + 1]);
            }
        }
    }

    /// Drops the chain of a frame whose submission failed before its flush,
    /// leaving a fresh complete sentinel.
    pub fn reset(&mut self)
        requires
            old(self).wf(),
        ensures
            final(self).wf(),
            final(self).frames() == Seq::<u64>::empty(),
            final(self).next() == old(self).next(),
    {
        self.in_flight = Vec::new();
    }

    /// Records how the flush of the frame just submitted ended. A flushed
    /// frame joins the chain; an out-of-date target drops the chain and
    /// leaves a fresh complete sentinel without error; any other failure
    /// drops the chain too and is reported.
    pub fn finish_frame(&mut self, outcome: FlushOutcome) -> (r: Result<(), RenderError>)
        requires
            old(self).wf(),
            old(self).next() < u64::MAX,
        ensures
            final(self).wf(),
            final(self).next() == old(self).next() + 1,
            final(self).frames() == after_flush(old(self).frames(), old(self).next() as u64, outcome),
            r == flush_result(outcome),
    {
        let frame = self.next_frame;
        self.next_frame = frame + 1;
        match outcome {
            FlushOutcome::Flushed => {
                self.in_flight.push(frame);
                Ok(())
            },
            FlushOutcome::OutOfDate => {
                self.in_flight = Vec::new();
                Ok(())
            },
            FlushOutcome::Failed(cause) => {
                self.in_flight = Vec::new();
                Err(RenderError::FlushError(cause))
            },
        }
    }
}

/// After an out-of-date flush the fence is a fresh "already complete"
/// sentinel and the frame reports no error; the next frame's cleanup finds
/// nothing to wait on, whatever the GPU reports, and that frame succeeds
/// unless its own flush fails for another reason.
pub proof fn lemma_out_of_date_heals(frames: Seq<u64>, frame: u64, completed_through: Option<u64>, next_outcome: FlushOutcome)
    ensures
        after_flush(frames, frame, FlushOutcome::OutOfDate) == Seq::<u64>::empty(),
        flush_result(FlushOutcome::OutOfDate) == Ok::<(), RenderError>(()),
        cleaned(after_flush(frames, frame, FlushOutcome::OutOfDate), completed_through) == Seq::<u64>::empty(),
        !(next_outcome is Failed) ==> flush_result(next_outcome) == Ok::<(), RenderError>(()),
{
}

proof fn lemma_cleaned_suffix(frames: Seq<u64>, completed_through: Option<u64>) -> (d: int)
    ensures
        0 <= d <= frames.len(),
        cleaned(frames, completed_through) == frames.subrange(d, frames.len() as int),
        d < frames.len() ==> !is_done(frames[d], completed_through),
    decreases frames.len(),
{
    if frames.len() > 0 && is_done(frames[0], completed_through) {
        let d = lemma_cleaned_suffix(frames.drop_first(), completed_through);
        assert(frames.drop_first().subrange(d, frames.len() - 1) =~= frames.subrange(d + 1, frames.len() as int));
        d + 1
    } else {
        assert(frames.subrange(0, frames.len() as int) =~= frames);
        0
    }
}

proof fn lemma_increasing_bound(frames: Seq<u64>, lo: int, hi: int)
    requires
        forall|k: int, m: int| 0 <= k < m < frames.len() ==> frames[k] < frames[m],
        forall|k: int| 0 <= k < frames.len() ==> lo < #[trigger] frames[k] < hi,
    ensures
        frames.len() <= if hi - lo - 1 < 0 { 0 } else { hi - lo - 1 },
    decreases frames.len(),
{
    if frames.len() > 0 {
        let rest = frames.drop_first();
        assert forall|k: int| 0 <= k < rest.len() implies frames[0] < #[trigger] rest[k] < hi by {
            assert(rest[k] == frames[k + 1]);
        }
        lemma_increasing_bound(rest, frames[0] as int, hi);
    }
}

/// Reclaiming is cleanup-before-submit: once the GPU reports every frame
/// up to `c` complete, the cleanup at the start of the next frame leaves no
/// frame up to `c` tracked, keeps the rest in order, and so tracks at most
/// the frames after `c` that were submitted. In particular, when frame K is
/// done by the start of frame K + 2, at most frame K + 1 is still tracked.
pub proof fn lemma_frames_reclaimed(frames: Seq<u64>, next: nat, c: u64)
    requires
        fence_wf(frames, next),
    ensures
        fence_wf(cleaned(frames, Some(c)), next),
        forall|k: int| 0 <= k < cleaned(frames, Some(c)).len() ==> cleaned(frames, Some(c))[k] > c,
        forall|k: int| 0 <= k < cleaned(frames, Some(c)).len() ==> frames.contains(#[trigger] cleaned(frames, Some(c))[k]),
        cleaned(frames, Some(c)).len() <= if next <= c + 1 { 0 } else { next - c - 1 },
        c + 2 == next ==> cleaned(frames, Some(c)).len() <= 1,
{
    let d = lemma_cleaned_suffix(frames, Some(c));
    let r = cleaned(frames, Some(c));
    assert forall|k: int| 0 <= k < r.len() implies r[k] > c && frames.contains(r[k]) by {
        assert(r[k] == frames[k + d]);
        if k > 0 {
            assert(frames[d] < frames[k + d]);
        }
    }
    assert forall|k: int, m: int| 0 <= k < m < r.len() implies r[k] < r[m] by {
        assert(r[k] == frames[k + d]);
        assert(r[m] == frames[m + d]);
    }
    assert forall|k: int| 0 <= k < r.len() implies r[k] < next by {
        assert(r[k] == frames[k + d]);
    }
    lemma_increasing_bound(r, c as int, next as int);
}

} // verus!
