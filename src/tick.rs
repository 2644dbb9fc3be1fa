use vstd::prelude::*;

verus! {

/// Slowest tick speed.
pub const MIN_SPEED: u64 = 1;

/// Fastest tick speed.
pub const MAX_SPEED: u64 = 5;

/// Abstract state of a tick scheduler. Times are in microseconds.
pub struct TickState {
    pub progress: nat,
    pub threshold: nat,
    pub speed: nat,
    pub paused: bool,
}

/// One frame of `delta` microseconds: the state after it, and whether a
/// generation step fires in it. A step that is due fires before any time is
/// added, and resets the progress to zero; otherwise an unpaused scheduler
/// adds `speed * delta`, saturating at `u64::MAX`.
pub open spec fn tick(s: TickState, delta: nat) -> (TickState, bool) {
    if s.progress >= s.threshold {
        (TickState { progress: 0, ..s }, true)
    } else if !s.paused {
        let sum = s.progress + s.speed * delta;
        (TickState { progress: if sum > u64::MAX { u64::MAX as nat } else { sum as nat }, ..s }, false)
    } else {
        (s, false)
    }
}

/// The state after the frames of `deltas`, one after the other, and how many
/// generation steps fired in them.
pub open spec fn run_frames(s: TickState, deltas: Seq<nat>) -> (TickState, nat)
    decreases deltas.len(),
{
    if deltas.len() == 0 {
        (s, 0)
    } else {
        let (after_first, fired) = tick(s, deltas[0]);
        let (end, count) = run_frames(after_first, deltas.drop_first());
        (end, count + if fired { 1nat } else { 0nat })
    }
}

/// Paces generation steps against frame time. Progress accumulates at
/// `speed` microseconds per elapsed microsecond while unpaused; once it
/// reaches the threshold, the next frame fires one step and resets it.
pub struct TickScheduler {
    progress: u64,
    threshold: u64,
    speed: u64,
    paused: bool,
}

impl View for TickScheduler {
    type V = TickState;

    closed spec fn view(&self) -> TickState {
        TickState {
            progress: self.progress as nat,
            threshold: self.threshold as nat,
            speed: self.speed as nat,
            paused: self.paused,
        }
    }
}

impl TickScheduler {
    #[verifier::type_invariant]
    spec fn speed_in_range(self) -> bool {
        MIN_SPEED <= self.speed <= MAX_SPEED
    }

    /// A paused scheduler at speed 1 whose first step is already due.
    pub fn new(threshold: u64) -> (r: TickScheduler)
        ensures
            r@ == (TickState { progress: threshold as nat, threshold: threshold as nat, speed: 1, paused: true }),
    {
        TickScheduler { progress: threshold, threshold, speed: MIN_SPEED, paused: true }
    }

    pub fn progress(&self) -> (r: u64)
        ensures
            r as nat == self@.progress,
    {
        self.progress
    }

    pub fn threshold(&self) -> (r: u64)
        ensures
            r as nat == self@.threshold,
    {
        self.threshold
    }

    pub fn speed(&self) -> (r: u64)
        ensures
            r as nat == self@.speed,
            MIN_SPEED <= r <= MAX_SPEED,
    {
        proof {
            use_type_invariant(self);
        }
        self.speed
    }

    pub fn is_paused(&self) -> (r: bool)
        ensures
            r == self@.paused,
    {
        self.paused
    }

    pub fn toggle_pause(&mut self)
        ensures
            final(self)@ == (TickState { paused: !old(self)@.paused, ..old(self)@ }),
    {
        proof {
            use_type_invariant(&*self);
        }
        self.paused = !self.paused;
    }

    /// One step faster, up to the fastest speed.
    pub fn increase_speed(&mut self)
        ensures
            final(self)@ == (TickState {
                speed: if old(self)@.speed < MAX_SPEED { old(self)@.speed + 1 } else { MAX_SPEED as nat },
                ..old(self)@
            }),
    {
        proof {
            use_type_invariant(&*self);
        }
        if self.speed < MAX_SPEED {
            self.speed = self.speed + 1;
        }
    }

    /// One step slower, down to the slowest speed.
    pub fn decrease_speed(&mut self)
        ensures
            final(self)@ == (TickState {
                speed: if old(self)@.speed > MIN_SPEED { (old(self)@.speed - 1) as nat } else { MIN_SPEED as nat },
                ..old(self)@
            }),
    {
        proof {
            use_type_invariant(&*self);
        }
        if self.speed > MIN_SPEED {
            self.speed = self.speed - 1;
        }
    }

    /// Accounts for one frame of `delta` microseconds; returns whether a
    /// generation step fires in this frame.
    pub fn frame(&mut self, delta: u64) -> (r: bool)
        ensures
            (final(self)@, r) == tick(old(self)@, delta as nat),
    {
        proof {
            use_type_invariant(&*self);
        }
        if self.progress >= self.threshold {
            self.progress = 0;
            true
        } else {
            if !self.paused {
                let speed = self.speed;
                let added: u64 = if delta > u64::MAX / speed {
                    assert(speed * delta > u64::MAX) by (nonlinear_arith)
                        requires
                            speed >= 1,
                            delta > u64::MAX / speed,
                    {
                        assert(speed * (u64::MAX / speed + 1) > u64::MAX) by (nonlinear_arith)
                            requires speed >= 1,
                        {
                            vstd::arithmetic::div_mod::lemma_fundamental_div_mod(u64::MAX as int, speed as int);
                        }
                    }
                    u64::MAX
                } else {
                    assert(speed * delta <= u64::MAX) by (nonlinear_arith)
                        requires
                            speed >= 1,
                            delta <= u64::MAX / speed,
                    {
                        vstd::arithmetic::div_mod::lemma_fundamental_div_mod(u64::MAX as int, speed as int);
                    }
                    speed * delta
                };
                self.progress = self.progress.saturating_add(added);
            }
            false
        }
    }
}

} // verus!
