//! Speed and pause controls of the driver loop.
use vstd::prelude::*;

verus! {

/// A control signal that arrives with a tick.
#[derive(Debug, Clone, Copy, PartialEq, Eq, Structural)]
pub enum Signal {
    /// Double the steps per tick (at least one).
    IncreaseSpeed,
    /// Take away half the steps per tick (at least one), down to zero.
    DecreaseSpeed,
    /// Flip the pause flag.
    TogglePause,
    /// Rebuild the field from its initial packets.
    Reset,
}

/// The driver's settings: how many steps a tick runs, and whether it is
/// paused.
#[derive(Debug, Clone, Copy, PartialEq, Eq, Structural)]
pub struct Controls {
    pub steps_per_tick: usize,
    pub paused: bool,
}

/// What a tick is to do: how many steps to run first, and whether the field
/// is to be rebuilt afterwards.
#[derive(Debug, Clone, Copy, PartialEq, Eq, Structural)]
pub struct TickPlan {
    pub steps: usize,
    pub reset: bool,
}

/// Steps per tick after a speed increase: twice as many, one from zero,
/// held at the largest `usize`.
pub open spec fn faster(s: nat) -> nat {
    if s == 0 {
        1
    } else if 2 * s > usize::MAX {
        usize::MAX as nat
    } else {
        2 * s
    }
}

/// Steps per tick after a speed decrease: less by half of them, but by at
/// least one, and never below zero.
pub open spec fn slower(s: nat) -> nat {
    if s == 0 {
        0
    } else if s / 2 >= 1 {
        (s - s / 2) as nat
    } else {
        (s - 1) as nat
    }
}

/// The controls after one signal.
pub open spec fn after(c: Controls, s: Signal) -> Controls {
    match s {
        Signal::IncreaseSpeed => Controls { steps_per_tick: faster(c.steps_per_tick as nat) as usize, ..c },
        Signal::DecreaseSpeed => Controls { steps_per_tick: slower(c.steps_per_tick as nat) as usize, ..c },
        Signal::TogglePause => Controls { paused: !c.paused, ..c },
        Signal::Reset => c,
    }
}

/// The controls after a sequence of signals, taken in order.
pub open spec fn after_all(c: Controls, ss: Seq<Signal>) -> Controls
    decreases ss.len(),
{
    if ss.len() == 0 {
        c
    } else {
        after(after_all(c, ss.drop_last()), ss.last())
    }
}

impl Controls {
    /// Running, with the given steps per tick.
    pub fn new(steps_per_tick: usize) -> (r: Controls)
        ensures
            r.steps_per_tick == steps_per_tick,
            !r.paused,
    {
        Controls { steps_per_tick, paused: false }
    }

    /// Doubles the steps per tick (zero becomes one), saturating.
    pub fn increase_speed(&mut self)
        ensures
            *final(self) == after(*old(self), Signal::IncreaseSpeed),
    {
        let s = self.steps_per_tick;
        let inc: usize = if s == 0 {
            1
        } else {
            s
        };
        if s > usize::MAX - inc {
            self.steps_per_tick = usize::MAX;
        } else {
            self.steps_per_tick = s + inc;
        }
    }

    /// Takes away half the steps per tick, at least one, stopping at zero.
    pub fn decrease_speed(&mut self)
        ensures
            *final(self) == after(*old(self), Signal::DecreaseSpeed),
    {
        let s = self.steps_per_tick;
        let half = s / 2;
        let dec: usize = if half >= 1 {
            half
        } else {
            1
        };
        if s >= dec {
            self.steps_per_tick = s - dec;
        } else {
            self.steps_per_tick = 0;
        }
    }

    /// Flips the pause flag.
    pub fn toggle_pause(&mut self)
        ensures
            *final(self) == after(*old(self), Signal::TogglePause),
    {
        self.paused = !self.paused;
    }

    /// Applies one signal; returns whether it asks for a reset.
    pub fn apply(&mut self, signal: Signal) -> (reset: bool)
        ensures
            *final(self) == after(*old(self), signal),
            reset == (signal == Signal::Reset),
    {
        match signal {
            Signal::IncreaseSpeed => {
                self.increase_speed();
                false
            },
            Signal::DecreaseSpeed => {
                self.decrease_speed();
                false
            },
            Signal::TogglePause => {
                self.toggle_pause();
                false
            },
            Signal::Reset => true,
        }
    }

    /// The number of steps that a tick runs with these settings.
    pub fn steps_this_tick(&self) -> (r: usize)
        ensures
            r == if self.paused {
                0
            } else {
                self.steps_per_tick
            },
    {
        if self.paused {
            0
        } else {
            self.steps_per_tick
        }
    }

    /// Plans one tick. The steps are those of the settings as they stood when
    /// the tick began; then the signals are applied in order, and a reset is
    /// asked for when any of them is `Reset`.
    pub fn tick(&mut self, signals: &Vec<Signal>) -> (r: TickPlan)
        ensures
            r.steps == (if old(self).paused {
                0
            } else {
                old(self).steps_per_tick
            }),
            r.reset == (exists|i: int| 0 <= i < signals@.len() && signals@[i] == Signal::Reset),
            *final(self) == after_all(*old(self), signals@),
    {
        let steps = self.steps_this_tick();
        let ghost start = *self;
        let mut reset = false;
        let mut i: usize = 0;
        while i < signals.len()
            invariant
                i <= signals@.len(),
                *self == after_all(start, signals@.subrange(0, i as int)),
                reset == (exists|k: int| 0 <= k < i && signals@[k] == Signal::Reset),
            decreases signals@.len() - i,
        {
            let asked = self.apply(signals[i]);
            proof {
                let pre = signals@.subrange(0, i as int + 1);
                assert(pre.drop_last() =~= signals@.subrange(0, i as int));
            }
            reset = reset || asked;
            i = i + 1;
        }
        assert(signals@.subrange(0, signals@.len() as int) =~= signals@);
        TickPlan { steps, reset }
    }
}

} // verus!
