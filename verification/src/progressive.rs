//! Progressive rendering: after a scene change the encoder starts at a low
//! bitrate and climbs back over a few frames.

use vstd::prelude::*;

use crate::rounding;

verus! {

/// How many frames a ramp takes.
pub const RAMP_FRAMES: u32 = 5;

/// The lowest bitrate that a ramp uses.
pub const MIN_BITRATE: u32 = 500_000;

/// The part of the bitrate that a ramp starts with: a quarter, in units of two
/// to the power -25.
pub const INITIAL_QUALITY: u32 = 0x80_0000;

/// What to do with the encoder's bitrate for one frame.
#[derive(Clone, Copy, Debug, PartialEq, Eq, Structural)]
pub enum ProgressiveAction {
    /// Leave it as it is.
    Unchanged,
    /// Drop to this bitrate and start from a keyframe.
    SceneChange { bitrate: u32 },
    /// Climb to this bitrate.
    Ramp { bitrate: u32 },
    /// The ramp is over: back to the full bitrate.
    RampComplete { bitrate: u32 },
}

/// The state of a ramp: how many frames it still takes.
#[derive(Debug)]
pub struct ProgressiveRamp {
    remaining: u32,
}

/// The larger of a bitrate and the lowest one that a ramp uses.
pub open spec fn floored(bitrate: nat) -> nat {
    if bitrate < MIN_BITRATE {
        MIN_BITRATE as nat
    } else {
        bitrate
    }
}

/// The part of the full bitrate with `remaining` frames left, in units of two
/// to the power -25: from a quarter up in equal steps, as single precision
/// computes them.
pub open spec fn ramp_factor(remaining: nat) -> nat {
    if remaining >= 5 {
        INITIAL_QUALITY as nat
    } else if remaining == 4 {
        13421772
    } else if remaining == 3 {
        18454936
    } else if remaining == 2 {
        23488104
    } else {
        28521268
    }
}

/// The bitrate with `remaining` frames of a ramp left.
pub open spec fn ramp_bitrate(base: nat, remaining: nat) -> nat {
    floored(rounding::scaled(base, ramp_factor(remaining)))
}

/// Whether a frame starts a ramp where none is under way: three tenths of its
/// pixels changed.
pub open spec fn is_scene_change(dirty: nat, total: nat) -> bool {
    total > 0 && rounding::at_least_30_percent(dirty, total)
}

/// The action for a frame with `remaining` frames of a ramp left, and how many
/// are left after it.
pub open spec fn evaluated(remaining: nat, dirty: nat, total: nat, base: u32) -> (
    ProgressiveAction,
    nat,
) {
    if total == 0 {
        (ProgressiveAction::Unchanged, remaining)
    } else if remaining == 0 && is_scene_change(dirty, total) {
        (
            ProgressiveAction::SceneChange {
                bitrate: ramp_bitrate(base as nat, RAMP_FRAMES as nat) as u32,
            },
            RAMP_FRAMES as nat,
        )
    } else if remaining == 0 {
        (ProgressiveAction::Unchanged, 0)
    } else if remaining == 1 {
        (ProgressiveAction::RampComplete { bitrate: base }, 0)
    } else {
        (
            ProgressiveAction::Ramp {
                bitrate: ramp_bitrate(base as nat, (remaining - 1) as nat) as u32,
            },
            (remaining - 1) as nat,
        )
    }
}

impl View for ProgressiveRamp {
    type V = nat;

    /// How many frames of the ramp are left.
    closed spec fn view(&self) -> nat {
        self.remaining as nat
    }
}

impl ProgressiveRamp {
    #[verifier::type_invariant]
    spec fn within_ramp(self) -> bool {
        self.remaining <= RAMP_FRAMES
    }

    /// No ramp is under way.
    pub fn new() -> (ramp: Self)
        ensures
            ramp@ == 0,
    {
        ProgressiveRamp { remaining: 0 }
    }

    /// Looks at one frame, of whose `total_pixels` pixels `dirty_pixels`
    /// changed, and says what to do with the encoder's bitrate.
    pub fn evaluate(
        &mut self,
        dirty_pixels: u64,
        total_pixels: u64,
        base_bitrate: u32,
    ) -> (action: ProgressiveAction)
        ensures
            (action, final(self)@) == evaluated(
                old(self)@,
                dirty_pixels as nat,
                total_pixels as nat,
                base_bitrate,
            ),
            old(self)@ <= RAMP_FRAMES,
            final(self)@ <= RAMP_FRAMES,
    {
        proof {
            use_type_invariant(&*self);
        }
        if total_pixels == 0 {
            return ProgressiveAction::Unchanged;
        }
        if self.remaining == 0 && rounding::is_at_least_30_percent(dirty_pixels, total_pixels) {
            self.remaining = RAMP_FRAMES;
            let reduced: u32 = rounding::scale(base_bitrate, INITIAL_QUALITY);
            return ProgressiveAction::SceneChange { bitrate: at_least(reduced, MIN_BITRATE) };
        }
        if self.remaining > 0 {
            self.remaining = self.remaining - 1;
            if self.remaining == 0 {
                return ProgressiveAction::RampComplete { bitrate: base_bitrate };
            }
            let factor: u32 = match self.remaining {
                4 => 13421772,
                3 => 18454936,
                2 => 23488104,
                _ => 28521268,
            };
            let ramped: u32 = rounding::scale(base_bitrate, factor);
            return ProgressiveAction::Ramp { bitrate: at_least(ramped, MIN_BITRATE) };
        }
        ProgressiveAction::Unchanged
    }

    /// Whether a ramp is under way.
    pub fn is_ramping(&self) -> (ramping: bool)
        ensures
            ramping == (self@ > 0),
    {
        self.remaining > 0
    }
}

/// The larger of two bitrates.
fn at_least(bitrate: u32, least: u32) -> (r: u32)
    ensures
        r == if bitrate < least {
            least
        } else {
            bitrate
        },
{
    if bitrate < least {
        least
    } else {
        bitrate
    }
}

/// What is left of a ramp after `frames` further frames, whatever these hold.
pub open spec fn left_after(remaining: nat, frames: Seq<(nat, nat)>, base: u32) -> nat
    decreases frames.len(),
{
    if frames.len() == 0 {
        remaining
    } else {
        evaluated(
            left_after(remaining, frames.drop_last(), base),
            frames.last().0,
            frames.last().1,
            base,
        ).1
    }
}

/// During a ramp no frame starts another: each frame, whatever changed in it,
/// is one step of the ramp, and the last of them restores the full bitrate.
pub proof fn ramp_runs_to_its_end(remaining: nat, dirty: nat, total: nat, base: u32)
    requires
        remaining > 0,
        total > 0,
    ensures
        evaluated(remaining, dirty, total, base).1 == remaining - 1,
        !(evaluated(remaining, dirty, total, base).0 is SceneChange),
        evaluated(remaining, dirty, total, base).0 == (ProgressiveAction::RampComplete {
            bitrate: base,
        }) <==> remaining == 1,
{
}

/// A scene change, then any `RAMP_FRAMES` frames: the ramp is over, and the
/// next scene change starts another.
pub proof fn ramp_takes_five_frames(frames: Seq<(nat, nat)>, dirty: nat, total: nat, base: u32)
    requires
        frames.len() <= RAMP_FRAMES,
        forall|i: int| 0 <= i < frames.len() ==> (#[trigger] frames[i]).1 > 0,
        is_scene_change(dirty, total),
    ensures
        left_after(evaluated(0, dirty, total, base).1, frames, base) == RAMP_FRAMES
            - frames.len(),
        frames.len() == RAMP_FRAMES ==> evaluated(
            left_after(evaluated(0, dirty, total, base).1, frames, base),
            dirty,
            total,
            base,
        ).0 is SceneChange,
    decreases frames.len(),
{
    if frames.len() > 0 {
        ramp_takes_five_frames(frames.drop_last(), dirty, total, base);
    }
}

/// Over a ramp the bitrate never falls, and it climbs with every frame that has
/// more than the lowest bitrate of a ramp. From four times that on, this is
/// every frame.
pub proof fn ramp_climbs(base: u32, remaining: nat)
    ensures
        ramp_bitrate(base as nat, remaining + 1) <= ramp_bitrate(base as nat, remaining),
        1 <= remaining < RAMP_FRAMES && ramp_bitrate(base as nat, remaining) > MIN_BITRATE
            ==> ramp_bitrate(base as nat, remaining + 1) < ramp_bitrate(base as nat, remaining),
        1 <= remaining < RAMP_FRAMES && base >= 4 * MIN_BITRATE ==> ramp_bitrate(
            base as nat,
            remaining,
        ) > MIN_BITRATE,
{
    rounding::scaling_is_monotone(base as nat, ramp_factor(remaining + 1), ramp_factor(remaining));
    if base < 1000 {
        ramp_stays_below_the_full_bitrate(base as nat, remaining);
    } else if 1 <= remaining < RAMP_FRAMES {
        rounding::scaling_grows(base as nat, ramp_factor(remaining + 1), ramp_factor(remaining));
    }
}

/// Throughout a ramp the bitrate stays below the full one, but for the lowest
/// bitrate that a ramp uses.
pub proof fn ramp_stays_below_the_full_bitrate(base: nat, remaining: nat)
    ensures
        base > MIN_BITRATE ==> ramp_bitrate(base, remaining) < base,
        base <= MIN_BITRATE ==> ramp_bitrate(base, remaining) == MIN_BITRATE,
{
    if base > 0 {
        rounding::scaling_makes_smaller(base, ramp_factor(remaining));
    } else {
        assert(rounding::rounded(0, rounding::SINGLE as nat) == 0) by {
            rounding::lemma_rounded(0, rounding::SINGLE as nat);
        }
        assert(0 * ramp_factor(remaining) == 0) by (nonlinear_arith);
    }
}

/// When a ramp starts and how it goes on, frame by frame: three tenths of changed
/// pixels start one where none is under way; it then has five frames, of which
/// each takes one, and only the last has the full bitrate. Frames without pixels
/// do not count.
pub proof fn ramps_start_and_go_on(remaining: nat, dirty: nat, total: nat, base: u32)
    requires
        total <= 0x8_0000_0000_0000,
    ensures
        ({
            let (action, left) = evaluated(remaining, dirty, total, base);
            let starts = remaining == 0 && total > 0 && 10 * dirty >= 3 * total;
            &&& action is SceneChange <==> starts
            &&& starts ==> left == 5 && action->SceneChange_bitrate == ramp_bitrate(base as nat, 5)
            &&& action is Ramp <==> total > 0 && remaining > 1
            &&& action is Ramp ==> left == remaining - 1 && action->Ramp_bitrate == ramp_bitrate(
                base as nat,
                left,
            )
            &&& action is RampComplete <==> total > 0 && remaining == 1
            &&& action is RampComplete ==> left == 0 && action->RampComplete_bitrate == base
            &&& action is Unchanged ==> left == remaining
        }),
{
    if total > 0 {
        rounding::thirty_percent_is_exact(dirty, total);
    }
    ramp_bitrates_are_close(base, 5);
    if remaining > 1 {
        ramp_bitrates_are_close(base, (remaining - 1) as nat);
    }
}

/// A ramp starts with a quarter of the bitrate and climbs in equal steps of three
/// twentieths, but for what rounding takes or adds and never below 500000: with
/// `remaining` frames left, `5 + 3 * (5 - remaining)` twentieths.
pub proof fn ramp_bitrates_are_close(base: u32, remaining: nat)
    requires
        remaining > 0,
    ensures
        ramp_bitrate(base as nat, remaining) <= u32::MAX,
        ramp_bitrate(base as nat, remaining) >= 500_000,
        ({
            let steps = if remaining >= 5 {
                0
            } else {
                5 - remaining
            };
            let rate = ramp_bitrate(base as nat, remaining);
            let parts = (5 + 3 * steps) * base;
            &&& rate > 500_000 ==> parts - base / 1000 - 40 <= 20 * rate <= parts + base / 1000 + 40
            &&& rate == 500_000 ==> parts - base / 1000 - 40 <= 10_000_000
        }),
{
    let factor = ramp_factor(remaining);
    rounding::scaling_is_close(base as nat, factor);
    let exact = rounding::scaled(base as nat, factor);
    if remaining >= 5 {
        assert(factor == 0x80_0000);
        rounding::scaling_is_close(base as nat, 0x80_0000);
        assert(exact * 0x200_0000 <= base * 0x80_0000 + 16 * base);
        assert(20 * exact <= 5 * base + base / 1000 + 40);
        assert(5 * base <= 20 * exact + base / 1000 + 40);
    } else if remaining == 4 {
        assert(factor == 13421772);
        rounding::scaling_is_close(base as nat, 13421772);
        assert(exact * 0x200_0000 <= base * 13421772 + 16 * base);
        assert(20 * exact <= 8 * base + base / 1000 + 40);
        assert(8 * base <= 20 * exact + base / 1000 + 40);
    } else if remaining == 3 {
        assert(factor == 18454936);
        rounding::scaling_is_close(base as nat, 18454936);
        assert(exact * 0x200_0000 <= base * 18454936 + 16 * base);
        assert(20 * exact <= 11 * base + base / 1000 + 40);
        assert(11 * base <= 20 * exact + base / 1000 + 40);
    } else if remaining == 2 {
        assert(factor == 23488104);
        rounding::scaling_is_close(base as nat, 23488104);
        assert(exact * 0x200_0000 <= base * 23488104 + 16 * base);
        assert(20 * exact <= 14 * base + base / 1000 + 40);
        assert(14 * base <= 20 * exact + base / 1000 + 40);
    } else {
        assert(factor == 28521268);
        rounding::scaling_is_close(base as nat, 28521268);
        assert(exact * 0x200_0000 <= base * 28521268 + 16 * base);
        assert(20 * exact <= 17 * base + base / 1000 + 40);
        assert(17 * base <= 20 * exact + base / 1000 + 40);
    }
}

} // verus!
