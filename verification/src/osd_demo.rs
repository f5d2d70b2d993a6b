//! The overlay on show: driving it without a microphone, so that its look can be judged.

use vstd::prelude::*;
use vstd::string::*;

use vstd::arithmetic::div_mod::{
    lemma_mod_add_multiples_vanish, lemma_mod_bound, lemma_small_mod,
};

use crate::osd::OsdPhase;
use crate::text::{chars_of, same_text, string_of};

verus! {

/// What is shown as if it had been said.
pub const SAMPLE: &'static str = "这个悬浮窗的圆角在 Windows 上要足够平滑，半透明的玻璃质感也要能透出下面的内容。";

/// What is shown as a notice.
pub const NOTICE: &'static str = "没有听清，再按住试一次";

/// What to show.
#[derive(Clone, Copy, Debug, PartialEq, Eq, Structural)]
pub enum DemoPhase {
    /// Listening, with nothing recognised yet.
    Waiting,
    /// Listening, with the transcript streaming in.
    Listening,
    /// The hotkey released, with the transcript on screen.
    Processing,
    /// The transcript being polished. It is asked for by a switch, not by name.
    Optimizing,
    Done,
    Notice,
}

/// The phase a name stands for.
pub open spec fn phase_named(name: Seq<char>) -> Option<DemoPhase> {
    if name == "waiting"@ {
        Some(DemoPhase::Waiting)
    } else if name == "listening"@ {
        Some(DemoPhase::Listening)
    } else if name == "processing"@ {
        Some(DemoPhase::Processing)
    } else if name == "done"@ {
        Some(DemoPhase::Done)
    } else if name == "notice"@ {
        Some(DemoPhase::Notice)
    } else {
        None
    }
}

impl DemoPhase {
    /// The phase a name stands for, or what is wrong with the name.
    pub fn named(value: &str) -> (r: Result<DemoPhase, String>)
        ensures
            match r {
                Ok(p) => phase_named(value@) == Some(p),
                Err(m) => phase_named(value@) is None && m@ == "unknown phase \""@ + value@
                    + "\" (waiting|listening|processing|done|notice)"@,
            },
    {
        if same_text(value, "waiting") {
            Ok(DemoPhase::Waiting)
        } else if same_text(value, "listening") {
            Ok(DemoPhase::Listening)
        } else if same_text(value, "processing") {
            Ok(DemoPhase::Processing)
        } else if same_text(value, "done") {
            Ok(DemoPhase::Done)
        } else if same_text(value, "notice") {
            Ok(DemoPhase::Notice)
        } else {
            let mut m = "unknown phase \"".to_owned();
            m.append(value);
            m.append("\" (waiting|listening|processing|done|notice)");
            Err(m)
        }
    }
}

impl std::str::FromStr for DemoPhase {
    type Err = String;

    fn from_str(value: &str) -> (r: Result<DemoPhase, String>)
        ensures
            match r {
                Ok(p) => phase_named(value@) == Some(p),
                Err(m) => phase_named(value@) is None && m@ == "unknown phase \""@ + value@
                    + "\" (waiting|listening|processing|done|notice)"@,
            },
    {
        DemoPhase::named(value)
    }
}

/// What to do with the overlay.
#[derive(Clone, Copy, Debug, PartialEq, Eq, Structural)]
pub enum DemoAction {
    /// Begin a dictation.
    Begin,
    /// Set the level.
    Level,
    /// Set the level and the transcript so far.
    LevelAndPartial,
    /// Set the whole transcript and release the hotkey.
    Release,
    /// Set the whole transcript, release the hotkey and begin the polishing.
    Optimize,
    /// Leave it alone.
    Nothing,
    /// Show the result, again and again so that it stays.
    Done,
    /// Show the notice, again and again so that it stays.
    Notice,
}

/// What to do with the overlay, given what it is about.
pub fn drive(wanted: DemoPhase, shown: OsdPhase) -> (r: DemoAction)
    ensures
        r == (if shown == OsdPhase::Hidden {
            DemoAction::Begin
        } else {
            match wanted {
                DemoPhase::Waiting => DemoAction::Level,
                DemoPhase::Listening => DemoAction::LevelAndPartial,
                DemoPhase::Processing => if shown == OsdPhase::Processing {
                    DemoAction::Nothing
                } else {
                    DemoAction::Release
                },
                DemoPhase::Optimizing => if shown == OsdPhase::Optimizing {
                    DemoAction::Nothing
                } else {
                    DemoAction::Optimize
                },
                DemoPhase::Done => DemoAction::Done,
                DemoPhase::Notice => DemoAction::Notice,
            }
        }),
{
    if shown == OsdPhase::Hidden {
        return DemoAction::Begin;
    }
    match wanted {
        DemoPhase::Waiting => DemoAction::Level,
        DemoPhase::Listening => DemoAction::LevelAndPartial,
        DemoPhase::Processing => if shown == OsdPhase::Processing {
            DemoAction::Nothing
        } else {
            DemoAction::Release
        },
        DemoPhase::Optimizing => if shown == OsdPhase::Optimizing {
            DemoAction::Nothing
        } else {
            DemoAction::Optimize
        },
        DemoPhase::Done => DemoAction::Done,
        DemoPhase::Notice => DemoAction::Notice,
    }
}

/// How many of the sample's characters are shown at a step: one more at each, then a pause of
/// twelve, then over again.
pub open spec fn shown_at(step: int, total: int) -> int {
    let at = step % (total + 12);
    if at <= total {
        at
    } else {
        total
    }
}

/// The part of the sample that is shown at a step.
pub fn streamed(step: u64) -> (r: String)
    ensures
        r@ == SAMPLE@.take(shown_at(step as int, SAMPLE@.len() as int)),
{
    let chars = chars_of(SAMPLE);
    let total: usize = chars.len();
    let cycle: u128 = total as u128 + 12;
    let at: u128 = step as u128 % cycle;
    let n: usize = if at <= total as u128 {
        at as usize
    } else {
        total
    };
    let r = string_of(&chars, 0, n);
    proof {
        assert(r@ =~= SAMPLE@.take(n as int));
    }
    r
}

/// Every phase that can be named goes by one name, and no other name stands for it; the polishing has
/// none.
pub proof fn phases_go_by_their_names(name: Seq<char>)
    ensures
        phase_named(name) == Some(DemoPhase::Waiting) <==> name == "waiting"@,
        phase_named(name) == Some(DemoPhase::Listening) <==> name == "listening"@,
        phase_named(name) == Some(DemoPhase::Processing) <==> name == "processing"@,
        phase_named(name) == Some(DemoPhase::Done) <==> name == "done"@,
        phase_named(name) == Some(DemoPhase::Notice) <==> name == "notice"@,
        phase_named(name) != Some(DemoPhase::Optimizing),
{
    reveal_strlit("waiting");
    reveal_strlit("listening");
    reveal_strlit("processing");
    reveal_strlit("done");
    reveal_strlit("notice");
    assert("waiting"@.len() == 7 && "listening"@.len() == 9 && "processing"@.len() == 10);
    assert("done"@.len() == 4 && "notice"@.len() == 6);
}

/// The sample streams in character by character, stays whole for twelve steps, and starts over.
pub proof fn the_sample_streams_in_and_stays(step: int, total: int)
    requires
        0 <= step,
        0 <= total,
    ensures
        0 <= shown_at(step, total) <= total,
        step <= total ==> shown_at(step, total) == step,
        total <= step < total + 12 ==> shown_at(step, total) == total,
        shown_at(step + total + 12, total) == shown_at(step, total),
{
    let cycle = total + 12;
    if step < cycle {
        lemma_small_mod(step as nat, cycle as nat);
    }
    lemma_mod_add_multiples_vanish(step, cycle);
    assert(step + total + 12 == cycle + step);
    lemma_mod_bound(step, cycle);
}

}
