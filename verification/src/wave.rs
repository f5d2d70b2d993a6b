//! The waveform an overlay draws: the latest levels of the microphone, a bar for each step of time.

use vstd::prelude::*;

use crate::single::{ONE, Single};

verus! {

/// How much time one bar stands for, in nanoseconds.
pub const WAVE_STEP: u64 = 32_000_000;

/// Nought as a single-precision number.
pub open spec fn zero() -> Single {
    Single { bits: 0 }
}

/// A flat waveform.
pub open spec fn flat(slots: nat) -> Seq<Single> {
    Seq::new(slots, |i: int| zero())
}

/// Whether each bar was clamped: it lies between nought and one, unless it is no number.
pub open spec fn clamped(levels: Seq<Single>) -> bool {
    forall|i: int| 0 <= i < levels.len() ==> (#[trigger] levels[i]).unit() == levels[i]
}

/// Whether each bar is a number between nought and one.
pub open spec fn drawable(levels: Seq<Single>) -> bool {
    forall|i: int|
        0 <= i < levels.len() ==> !(#[trigger] levels[i]).nan() && 0 <= levels[i].rank() <= ONE
}

/// A waveform with a new level: another bar for it where the last one is old enough, else the last
/// bar grows to it.
pub open spec fn raised(levels: Seq<Single>, level: Single, fresh: bool) -> Seq<Single> {
    if fresh {
        levels.drop_first().push(level.unit())
    } else {
        levels.drop_last().push(levels.last().larger(level.unit()))
    }
}

/// A flat waveform.
pub fn flat_wave(slots: usize) -> (r: Vec<Single>)
    ensures
        r@ == flat(slots as nat),
{
    let mut levels: Vec<Single> = Vec::new();
    while levels.len() < slots
        invariant
            levels@.len() <= slots,
            forall|i: int| 0 <= i < levels@.len() ==> levels@[i] == zero(),
        decreases slots - levels.len(),
    {
        levels.push(Single { bits: 0 });
    }
    proof {
        assert(levels@ =~= flat(slots as nat));
    }
    levels
}

/// Takes a new level into a waveform.
pub fn raise(levels: &mut Vec<Single>, level: Single, fresh: bool)
    requires
        old(levels)@.len() > 0,
    ensures
        final(levels)@ == raised(old(levels)@, level, fresh),
{
    let level = level.clamp_unit();
    let ghost had = levels@;
    if fresh {
        levels.remove(0);
        levels.push(level);
        proof {
            assert(levels@ =~= had.drop_first().push(level));
        }
    } else {
        let last: usize = levels.len() - 1;
        let grown = levels[last].max_of(level);
        levels.set(last, grown);
        proof {
            assert(levels@ =~= had.drop_last().push(grown));
        }
    }
}

/// A new level changes neither the number of bars nor their bounds: clamped bars stay clamped, and
/// as long as levels are numbers every bar is one between nought and one.
pub proof fn bars_stay_within_bounds(levels: Seq<Single>, level: Single, fresh: bool)
    requires
        levels.len() > 0,
    ensures
        raised(levels, level, fresh).len() == levels.len(),
        clamped(levels) ==> clamped(raised(levels, level, fresh)),
        drawable(levels) && !level.nan() ==> drawable(raised(levels, level, fresh)),
{
    let new = raised(levels, level, fresh);
    let n = levels.len();
    assert forall|i: int| 0 <= i < n - 1 implies #[trigger] new[i] == (if fresh {
        levels[i + 1]
    } else {
        levels[i]
    }) by {}
    assert(new[n - 1] == level.unit() || new[n - 1] == levels[n - 1]);
    assert(level.unit().unit() == level.unit());
}

/// A flat waveform can be drawn.
pub proof fn a_flat_waveform_is_within_bounds(slots: nat)
    ensures
        flat(slots).len() == slots,
        clamped(flat(slots)),
        drawable(flat(slots)),
{
}

/// A fresh level moves every bar one place on and takes the last; another one only raises the last
/// bar, which is then as high as the higher of the two.
pub proof fn bars_move_on_or_rise(levels: Seq<Single>, level: Single, i: int)
    requires
        0 <= i < levels.len(),
    ensures
        ({
            let after = raised(levels, level, true);
            let n = levels.len();
            &&& after.len() == n
            &&& i + 1 < n ==> after[i] == levels[i + 1]
            &&& after[n - 1] == level.unit()
        }),
        ({
            let after = raised(levels, level, false);
            let n = levels.len();
            &&& after.len() == n
            &&& i + 1 < n ==> after[i] == levels[i]
            &&& after[n - 1] == levels[n - 1] || after[n - 1] == level.unit()
            &&& !levels[n - 1].nan() && !level.nan() ==> levels[n - 1].at_most(after[n - 1])
                && level.unit().at_most(after[n - 1])
        }),
{
}

/// A bar stands for thirty-two thousandths of a second, and a flat one for nought.
pub proof fn a_flat_bar_is_nought(slots: nat, i: int)
    requires
        0 <= i < slots,
    ensures
        flat(slots)[i].bits == 0,
        WAVE_STEP * 1000 == 32 * 1_000_000_000,
{
}

}
