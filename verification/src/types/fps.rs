use vstd::prelude::*;

verus! {

/// Number of frame durations that `Fps` keeps.
pub const FPS_SAMPLES: usize = 200;

/// Frame rate counter over the last `FPS_SAMPLES` frame durations. Instants and
/// durations are nanoseconds on one monotonic clock.
pub struct Fps {
    tick_times: Vec<u64>,
    last_time: Option<u64>,
    idx: usize,
}

impl Fps {
    /// The stored durations, slot by slot.
    pub closed spec fn samples(&self) -> Seq<u64> {
        self.tick_times@
    }

    /// Slot that the next duration goes to.
    pub closed spec fn slot(&self) -> nat {
        self.idx as nat
    }

    /// Instant of the previous tick, if any.
    pub closed spec fn last(&self) -> Option<u64> {
        self.last_time
    }

    pub closed spec fn wf(&self) -> bool {
        &&& self.tick_times.len() == FPS_SAMPLES
        &&& self.idx < FPS_SAMPLES
    }

    pub fn new() -> (r: Fps)
        ensures
            r.wf(),
            r.samples() == Seq::new(FPS_SAMPLES as nat, |i: int| 0u64),
            r.last() is None,
            r.slot() == 0,
    {
        let mut tick_times: Vec<u64> = Vec::new();
        let mut i: usize = 0;
        while i < FPS_SAMPLES
            invariant
                i <= FPS_SAMPLES,
                tick_times@ == Seq::new(i as nat, |j: int| 0u64),
            decreases FPS_SAMPLES - i,
        {
            tick_times.push(0);
            i = i + 1;
        }
        Fps { tick_times, last_time: None, idx: 0 }
    }

    /// Records a tick at instant `now`: the time since the previous tick goes to
    /// the current slot (zero when `now` is earlier), and the slot advances,
    /// wrapping after the last one.
    fn tick_internal(&mut self, now: u64)
        requires
            old(self).wf(),
        ensures
            final(self).wf(),
            final(self).samples() == (match old(self).last() {
                Some(last) => old(self).samples().update(
                    old(self).slot() as int,
                    (if now >= last { (now - last) as u64 } else { 0u64 }),
                ),
                None => old(self).samples(),
            }),
            final(self).last() == Some(now),
            final(self).slot() == (old(self).slot() + 1) % (FPS_SAMPLES as nat),
    {
        if let Some(last_time) = self.last_time {
            let duration = if now >= last_time { now - last_time } else { 0 };
            self.tick_times.set(self.idx, duration);
        }
        self.last_time = Some(now);
        self.idx = self.idx + 1;
        if self.idx >= FPS_SAMPLES {
            self.idx = 0;
        }
    }

    /// Records a tick at the instant `now`.
    pub fn force_tick(&mut self, now: u64)
        requires
            old(self).wf(),
        ensures
            final(self).wf(),
            final(self).samples() == (match old(self).last() {
                Some(last) => old(self).samples().update(
                    old(self).slot() as int,
                    (if now >= last { (now - last) as u64 } else { 0u64 }),
                ),
                None => old(self).samples(),
            }),
            final(self).last() == Some(now),
            final(self).slot() == (old(self).slot() + 1) % (FPS_SAMPLES as nat),
    {
        self.tick_internal(now);
    }

    /// Mean of the stored durations in nanoseconds, rounded down.
    pub fn average_tick_nanos(&self) -> (r: u64)
        requires
            self.wf(),
        ensures
            r == sum_u64(self.samples()) / (FPS_SAMPLES as nat),
    {
        let mut sum: u128 = 0;
        let mut i: usize = 0;
        while i < FPS_SAMPLES
            invariant
                self.wf(),
                i <= FPS_SAMPLES,
                sum == sum_u64(self.samples().take(i as int)),
                sum <= i * 0xffff_ffff_ffff_ffffnat,
            decreases FPS_SAMPLES - i,
        {
            proof {
                assert(self.samples().take(i + 1).drop_last() =~= self.samples().take(i as int));
            }
            sum = sum + self.tick_times[i] as u128;
            i = i + 1;
        }
        proof {
            assert(self.samples().take(FPS_SAMPLES as int) =~= self.samples());
        }
        (sum / 200) as u64
    }
}

impl Default for Fps {
    fn default() -> (r: Self)
        ensures
            r.wf(),
            r.samples() == Seq::new(FPS_SAMPLES as nat, |i: int| 0u64),
            r.last() is None,
            r.slot() == 0,
    {
        Self::new()
    }
}

/// Sum of a sequence of durations.
pub open spec fn sum_u64(s: Seq<u64>) -> nat
    decreases s.len(),
{
    if s.len() == 0 {
        0
    } else {
        sum_u64(s.drop_last()) + s.last() as nat
    }
}

} // verus!
