//! Output level of the audio engine, kept in whole percent.

use vstd::prelude::*;
use vstd::string::StringExecFns;
use crate::text::{decimal, decimal_text};

verus! {

/// Step of a raise or a lower that names no amount, in percent.
pub const DEFAULT_STEP: i64 = 20;

/// The nearest level on the scale from 0 to 100.
pub open spec fn clamp_percent(x: int) -> int {
    if x <= 0 {
        0
    } else if x >= 100 {
        100
    } else {
        x
    }
}

/// The step that a raise or a lower applies: the amount given, or the default.
pub open spec fn step_or_default(step: Option<i64>) -> int {
    match step {
        Some(s) => s as int,
        None => DEFAULT_STEP as int,
    }
}

/// Level after a raise by `step`: full where the sum would reach or pass
/// the top of the scale, the sum otherwise.
pub open spec fn raised(level: int, step: int) -> int {
    clamp_percent(level + step)
}

/// Level after a lower by `step`: silent where the difference would reach or
/// pass the bottom of the scale, the difference otherwise.
pub open spec fn lowered(level: int, step: int) -> int {
    clamp_percent(level - step)
}

/// Level after a mute toggle: full from silence, silence from anything else.
pub open spec fn mute_toggled(level: int) -> int {
    if level == 0 {
        100
    } else {
        0
    }
}

/// The line that reports a level.
pub open spec fn volume_line(level: int) -> Seq<char> {
    "volume: "@ + decimal(level as nat) + "%"@
}

/// An output level between silence (0) and full (100).
#[derive(Clone, Copy, Debug, PartialEq, Eq)]
pub struct Volume {
    percent: u8,
}

impl View for Volume {
    type V = int;

    closed spec fn view(&self) -> int {
        self.percent as int
    }
}

impl Volume {
    #[verifier::type_invariant]
    spec fn on_scale(self) -> bool {
        self.percent <= 100
    }

    /// The level nearest to `percent` on the scale.
    pub fn new(percent: i64) -> (v: Volume)
        ensures
            v@ == clamp_percent(percent as int),
    {
        if percent <= 0 {
            Volume { percent: 0 }
        } else if percent >= 100 {
            Volume { percent: 100 }
        } else {
            Volume { percent: percent as u8 }
        }
    }

    /// Full level.
    pub fn full() -> (v: Volume)
        ensures
            v@ == 100,
    {
        Volume { percent: 100 }
    }

    /// Silence.
    pub fn silent() -> (v: Volume)
        ensures
            v@ == 0,
    {
        Volume { percent: 0 }
    }

    /// The level in percent.
    pub fn percent(self) -> (p: u8)
        ensures
            p == self@,
            p <= 100,
    {
        proof {
            use_type_invariant(self);
        }
        self.percent
    }

    /// Whether the level is silence.
    pub fn is_silent(self) -> (b: bool)
        ensures
            b == (self@ == 0),
    {
        self.percent == 0
    }

    /// Raises the level by `step` percent, or by the default step.
    pub fn raise(self, step: Option<i64>) -> (v: Volume)
        ensures
            v@ == raised(self@, step_or_default(step)),
    {
        proof {
            use_type_invariant(self);
        }
        let s: i64 = match step {
            Some(s) => s,
            None => DEFAULT_STEP,
        };
        if s >= 100 - (self.percent as i64) {
            Volume { percent: 100 }
        } else if s <= -(self.percent as i64) {
            Volume { percent: 0 }
        } else {
            Volume { percent: ((self.percent as i64) + s) as u8 }
        }
    }

    /// Lowers the level by `step` percent, or by the default step.
    pub fn lower(self, step: Option<i64>) -> (v: Volume)
        ensures
            v@ == lowered(self@, step_or_default(step)),
    {
        proof {
            use_type_invariant(self);
        }
        let s: i64 = match step {
            Some(s) => s,
            None => DEFAULT_STEP,
        };
        if s >= self.percent as i64 {
            Volume { percent: 0 }
        } else if s <= (self.percent as i64) - 100 {
            Volume { percent: 100 }
        } else {
            Volume { percent: ((self.percent as i64) - s) as u8 }
        }
    }

    /// Mutes a sounding level and restores a silent one to full.
    pub fn toggle_mute(self) -> (v: Volume)
        ensures
            v@ == mute_toggled(self@),
    {
        if self.percent == 0 {
            Volume { percent: 100 }
        } else {
            Volume { percent: 0 }
        }
    }

    /// The line that reports this level, such as `volume: 90%`.
    pub fn report(self) -> (line: String)
        ensures
            line@ == volume_line(self@),
    {
        let mut line = String::from_str("volume: ");
        let digits = decimal_text(self.percent as u64);
        line.append(digits.as_str());
        line.append("%");
        line
    }
}

/// Level after `times` raises by `step`.
pub open spec fn raised_times(level: int, step: int, times: nat) -> int
    decreases times,
{
    if times == 0 {
        level
    } else {
        raised(raised_times(level, step, (times - 1) as nat), step)
    }
}

/// Level after `times` lowers by `step`.
pub open spec fn lowered_times(level: int, step: int, times: nat) -> int
    decreases times,
{
    if times == 0 {
        level
    } else {
        lowered(lowered_times(level, step, (times - 1) as nat), step)
    }
}

/// A raise, a lower and a mute toggle each end on the scale.
pub proof fn lemma_stays_on_scale(level: int, step: int)
    ensures
        0 <= raised(level, step) <= 100,
        0 <= lowered(level, step) <= 100,
        0 <= mute_toggled(level) <= 100,
{
}

/// Repeated raises by a positive step add up until they reach the top of
/// the scale, and stay there: the level never exceeds 100.
pub proof fn lemma_raised_times(level: int, step: int, times: nat)
    requires
        0 <= level <= 100,
        step >= 0,
    ensures
        raised_times(level, step, times) == if level + times * step >= 100 {
            100
        } else {
            level + times * step
        },
    decreases times,
{
    if times > 0 {
        lemma_raised_times(level, step, (times - 1) as nat);
        assert(times * step == (times - 1) * step + step) by (nonlinear_arith);
        assert((times - 1) * step >= 0) by (nonlinear_arith)
            requires
                times >= 1,
                step >= 0,
        ;
    } else {
        assert(times * step == 0) by (nonlinear_arith)
            requires
                times == 0,
        ;
    }
}

/// Repeated lowers by a positive step add up until they reach the bottom of
/// the scale, and stay there: the level never goes below 0.
pub proof fn lemma_lowered_times(level: int, step: int, times: nat)
    requires
        0 <= level <= 100,
        step >= 0,
    ensures
        lowered_times(level, step, times) == if level - times * step <= 0 {
            0
        } else {
            level - times * step
        },
    decreases times,
{
    if times > 0 {
        lemma_lowered_times(level, step, (times - 1) as nat);
        assert(times * step == (times - 1) * step + step) by (nonlinear_arith);
        assert((times - 1) * step >= 0) by (nonlinear_arith)
            requires
                times >= 1,
                step >= 0,
        ;
    } else {
        assert(times * step == 0) by (nonlinear_arith)
            requires
                times == 0,
        ;
    }
}

/// From any level, raises by a step of at least one percent reach exactly
/// 100 once they add up to the distance, and no raise leads past it.
pub proof fn lemma_raise_converges(level: int, step: int, times: nat)
    requires
        0 <= level <= 100,
        step >= 1,
    ensures
        raised_times(level, step, times) <= 100,
        times * step >= 100 - level ==> raised_times(level, step, times) == 100,
        times >= 100 ==> raised_times(level, step, times) == 100,
{
    lemma_raised_times(level, step, times);
    if times >= 100 {
        assert(times * step >= 100) by (nonlinear_arith)
            requires
                times >= 100,
                step >= 1,
        ;
    }
}

/// From any level, lowers by a step of at least one percent reach exactly 0
/// once they add up to the level, and no lower leads below it.
pub proof fn lemma_lower_converges(level: int, step: int, times: nat)
    requires
        0 <= level <= 100,
        step >= 1,
    ensures
        lowered_times(level, step, times) >= 0,
        times * step >= level ==> lowered_times(level, step, times) == 0,
        times >= 100 ==> lowered_times(level, step, times) == 0,
{
    lemma_lowered_times(level, step, times);
    if times >= 100 {
        assert(times * step >= 100) by (nonlinear_arith)
            requires
                times >= 100,
                step >= 1,
        ;
    }
}

/// With the default step, five raises reach 100 and five lowers reach 0,
/// wherever they start.
pub proof fn lemma_default_step_converges(level: int)
    requires
        0 <= level <= 100,
    ensures
        raised_times(level, DEFAULT_STEP as int, 5) == 100,
        lowered_times(level, DEFAULT_STEP as int, 5) == 0,
{
    lemma_raise_converges(level, DEFAULT_STEP as int, 5);
    lemma_lower_converges(level, DEFAULT_STEP as int, 5);
}

/// Two mute toggles in a row give back the level they started from only
/// where that level was full or silent. Muting forgets any other level:
/// the second toggle then restores full.
pub proof fn lemma_mute_twice(level: int)
    requires
        0 <= level <= 100,
    ensures
        mute_toggled(mute_toggled(level)) == level <==> level == 100 || level == 0,
        level != 0 ==> mute_toggled(level) == 0 && mute_toggled(mute_toggled(level)) == 100,
{
}

} // verus!
