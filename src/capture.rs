//! Bounded collection of return addresses while the stack is walked.
//!
//! The buffer is a fixed array: filling it allocates nothing, so it can be
//! used from a signal handler.

use vstd::prelude::*;

verus! {

/// The most frames a trace holds.
pub const MAX_FRAMES: usize = 30;

/// What the unwinder is told after each frame.
#[derive(Clone, Copy, Debug, PartialEq, Eq, Structural)]
pub enum UnwindStep {
    /// Go on to the next frame.
    Continue,
    /// The buffer is full: stop walking.
    Stop,
}

/// The frames kept after one more program counter `pc` is seen: a null
/// counter is skipped, and nothing is added once `limit` frames are held.
pub open spec fn feed(frames: Seq<usize>, limit: nat, pc: usize) -> Seq<usize> {
    if pc == 0 || frames.len() >= limit {
        frames
    } else {
        frames.push(pc)
    }
}

/// The frames kept after the program counters `pcs` are seen in order,
/// starting from an empty buffer.
pub open spec fn captured(limit: nat, pcs: Seq<usize>) -> Seq<usize>
    decreases pcs.len(),
{
    if pcs.len() == 0 {
        Seq::empty()
    } else {
        feed(captured(limit, pcs.drop_last()), limit, pcs.last())
    }
}

/// A fixed-capacity buffer of captured return addresses.
pub struct FrameBuffer {
    frames: [usize; 30],
    len: usize,
    limit: usize,
}

impl View for FrameBuffer {
    type V = Seq<usize>;

    closed spec fn view(&self) -> Seq<usize> {
        self.frames@.subrange(0, self.len as int)
    }
}

impl FrameBuffer {
    /// The most frames this buffer keeps.
    pub closed spec fn limit(&self) -> nat {
        self.limit as nat
    }

    /// The buffer holds at most its limit, and its limit is at most
    /// `MAX_FRAMES`.
    pub closed spec fn wf(&self) -> bool {
        self.len <= self.limit <= MAX_FRAMES
    }

    /// An empty buffer that keeps at most `max_frames` frames, and never more
    /// than `MAX_FRAMES`.
    pub fn new(max_frames: usize) -> (r: FrameBuffer)
        ensures
            r.wf(),
            r@ == Seq::<usize>::empty(),
            r.limit() == if max_frames < MAX_FRAMES {
                max_frames as nat
            } else {
                MAX_FRAMES as nat
            },
    {
        let limit = if max_frames < MAX_FRAMES {
            max_frames
        } else {
            MAX_FRAMES
        };
        let r = FrameBuffer { frames: [0usize; 30], len: 0, limit };
        assert(r@ =~= Seq::<usize>::empty());
        r
    }

    /// Takes the program counter of the next frame. A null counter is
    /// skipped; when the buffer is full the walk is told to stop.
    pub fn record(&mut self, pc: usize) -> (r: UnwindStep)
        requires
            old(self).wf(),
        ensures
            final(self).wf(),
            final(self).limit() == old(self).limit(),
            final(self)@ == feed(old(self)@, old(self).limit(), pc),
            r == (if pc != 0 && old(self)@.len() >= old(self).limit() {
                UnwindStep::Stop
            } else {
                UnwindStep::Continue
            }),
    {
        proof {
            vstd::array::array_len_matches_n(&self.frames);
        }
        if pc == 0 {
            return UnwindStep::Continue;
        }
        if self.len == self.limit {
            return UnwindStep::Stop;
        }
        let ghost before = self@;
        self.frames[self.len] = pc;
        self.len = self.len + 1;
        assert(self@ =~= before.push(pc));
        UnwindStep::Continue
    }

    /// The number of frames held.
    pub fn len(&self) -> (r: usize)
        requires
            self.wf(),
        ensures
            r == self@.len(),
    {
        proof {
            vstd::array::array_len_matches_n(&self.frames);
        }
        self.len
    }

    /// The frames held, in capture order.
    pub fn addresses(&self) -> (r: Vec<usize>)
        requires
            self.wf(),
        ensures
            r@ == self@,
    {
        proof {
            vstd::array::array_len_matches_n(&self.frames);
        }
        let mut r: Vec<usize> = Vec::new();
        let mut i: usize = 0;
        while i < self.len
            invariant
                self.len <= 30,
                self.frames@.len() == 30,
                i <= self.len,
                r@ == self.frames@.subrange(0, i as int),
            decreases self.len - i,
        {
            r.push(self.frames[i]);
            i = i + 1;
        }
        r
    }
}

/// However many program counters the walk produces, a buffer never keeps
/// more than its limit: a deep stack is cut off, not overflowed.
pub proof fn capture_never_exceeds_limit(limit: nat, pcs: Seq<usize>)
    ensures
        captured(limit, pcs).len() <= limit,
    decreases pcs.len(),
{
    if pcs.len() > 0 {
        capture_never_exceeds_limit(limit, pcs.drop_last());
    }
}

} // verus!
