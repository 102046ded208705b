use vstd::prelude::*;

verus! {

/// Position of a frame in the animation, as the exact fraction
/// `num / den` between 0 (first frame) and 1 (last frame).
#[derive(Clone, Copy, Debug, PartialEq, Eq, Structural)]
pub struct Progress {
    pub num: u32,
    pub den: u32,
}

/// Position of frame `index` among `total` frames: `index / (total - 1)`,
/// and 0 where there is one frame or none.
pub open spec fn spec_frame_progress(index: u32, total: u32) -> Progress {
    if total <= 1 {
        Progress { num: 0, den: 1 }
    } else {
        Progress { num: index, den: (total - 1) as u32 }
    }
}

/// Position of frame `index` among `total` frames.
pub fn frame_progress(index: u32, total: u32) -> (p: Progress)
    ensures
        p == spec_frame_progress(index, total),
        p.den >= 1,
        index < total ==> p.num <= p.den,
        index == 0 ==> p.num == 0,
        total > 1 && index == total - 1 ==> p.num == p.den,
{
    if total <= 1 {
        Progress { num: 0, den: 1 }
    } else {
        Progress { num: index, den: total - 1 }
    }
}

/// Later frames lie strictly further along: for two frames of one animation,
/// the later one has the greater fraction.
pub proof fn lemma_progress_increases(earlier: u32, later: u32, total: u32)
    requires
        earlier < later < total,
    ensures
        spec_frame_progress(earlier, total).den == spec_frame_progress(later, total).den,
        spec_frame_progress(earlier, total).num < spec_frame_progress(later, total).num,
{
}

/// Which frame is due next, out of how many.
pub struct FrameSchedule {
    total: u32,
    next: u32,
}

impl FrameSchedule {
    /// Number of frames in the run.
    pub closed spec fn spec_total(&self) -> u32 {
        self.total
    }

    /// Frames handed out so far, which is also the index of the frame due next.
    pub closed spec fn spec_emitted(&self) -> u32 {
        self.next
    }

    /// A run has at least one frame and never hands out more than it has.
    pub open spec fn wf(&self) -> bool {
        &&& self.spec_total() >= 1
        &&& self.spec_emitted() <= self.spec_total()
    }

    /// Whether every frame has been handed out.
    pub open spec fn spec_is_done(&self) -> bool {
        self.spec_emitted() == self.spec_total()
    }

    /// A run of `frames` frames with none handed out; a request for no frame
    /// gives a run of one.
    pub fn new(frames: u32) -> (s: FrameSchedule)
        ensures
            s.wf(),
            s.spec_total() == if frames >= 1 { frames } else { 1 },
            s.spec_emitted() == 0,
    {
        FrameSchedule { total: if frames >= 1 { frames } else { 1 }, next: 0 }
    }

    #[verifier::when_used_as_spec(spec_total)]
    pub fn total(&self) -> (n: u32)
        ensures
            n == self.spec_total(),
    {
        self.total
    }

    #[verifier::when_used_as_spec(spec_emitted)]
    pub fn emitted(&self) -> (n: u32)
        ensures
            n == self.spec_emitted(),
    {
        self.next
    }

    #[verifier::when_used_as_spec(spec_is_done)]
    pub fn is_done(&self) -> (done: bool)
        ensures
            done == self.spec_is_done(),
    {
        self.next == self.total
    }

    /// Hands out the index of the frame that is due and moves on to the one
    /// after it; hands out nothing once the run is done.
    pub fn next_frame(&mut self) -> (index: Option<u32>)
        requires
            old(self).wf(),
        ensures
            final(self).wf(),
            final(self).spec_total() == old(self).spec_total(),
            old(self).spec_is_done() ==> index.is_none() && final(self).spec_emitted() == old(
                self,
            ).spec_emitted(),
            !old(self).spec_is_done() ==> index == Some(old(self).spec_emitted())
                && final(self).spec_emitted() == old(self).spec_emitted() + 1,
    {
        if self.next < self.total {
            let index = self.next;
            self.next = self.next + 1;
            Some(index)
        } else {
            None
        }
    }
}

} // verus!
