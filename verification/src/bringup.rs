//! Hardware bring-up sequencing: the pulse plans for the reset,
//! download-mode and power lines that force the target into a known boot
//! state. The hold times are fixed pulse-width requirements of the target
//! hardware and must be preserved exactly; driving the lines and sleeping
//! is the caller's job.

use vstd::prelude::*;

verus! {

/// Minimum hold time of a reset or download-mode pulse.
pub const LINE_HOLD_MILLIS: u64 = 100;

/// Hold time of the power line's long press.
pub const POWER_HOLD_MILLIS: u64 = 1000;

/// One of the three output lines the sequencer owns.
#[derive(Clone, Copy, Debug, PartialEq, Eq, Structural)]
pub enum ControlLine {
    Reset,
    Download,
    Power,
}

/// One step of a pulse plan: drive `line` to `value`, then hold at least
/// `hold_millis` before the next step.
#[derive(Clone, Copy, Debug, PartialEq, Eq, Structural)]
pub struct LineStep {
    pub line: ControlLine,
    pub value: u8,
    pub hold_millis: u64,
}

/// A plain reboot: pulse the reset line for the minimum hold time.
pub open spec fn spec_reset_steps() -> Seq<LineStep> {
    seq![
        LineStep { line: ControlLine::Reset, value: 1, hold_millis: LINE_HOLD_MILLIS },
        LineStep { line: ControlLine::Reset, value: 0, hold_millis: 0 },
    ]
}

/// Force the download-agent-receptive boot state: assert download-mode,
/// hold; assert reset, hold; release reset, hold; release download-mode.
/// The line-state transitions are exactly download=1, reset=1, reset=0,
/// download=0, and no others.
pub open spec fn spec_download_mode_steps() -> Seq<LineStep> {
    seq![
        LineStep { line: ControlLine::Download, value: 1, hold_millis: LINE_HOLD_MILLIS },
        LineStep { line: ControlLine::Reset, value: 1, hold_millis: LINE_HOLD_MILLIS },
        LineStep { line: ControlLine::Reset, value: 0, hold_millis: LINE_HOLD_MILLIS },
        LineStep { line: ControlLine::Download, value: 0, hold_millis: 0 },
    ]
}

/// Long-press the power line.
pub open spec fn spec_power_steps() -> Seq<LineStep> {
    seq![
        LineStep { line: ControlLine::Power, value: 1, hold_millis: POWER_HOLD_MILLIS },
        LineStep { line: ControlLine::Power, value: 0, hold_millis: 0 },
    ]
}

/// The pulse plan of a plain reboot.
pub fn reset_steps() -> (r: Vec<LineStep>)
    ensures
        r@ == spec_reset_steps(),
{
    let mut v: Vec<LineStep> = Vec::new();
    v.push(LineStep { line: ControlLine::Reset, value: 1, hold_millis: LINE_HOLD_MILLIS });
    v.push(LineStep { line: ControlLine::Reset, value: 0, hold_millis: 0 });
    proof {
        assert(v@ =~= spec_reset_steps());
    }
    v
}

/// The pulse plan that forces the target into download mode.
pub fn download_mode_steps() -> (r: Vec<LineStep>)
    ensures
        r@ == spec_download_mode_steps(),
{
    let mut v: Vec<LineStep> = Vec::new();
    v.push(LineStep { line: ControlLine::Download, value: 1, hold_millis: LINE_HOLD_MILLIS });
    v.push(LineStep { line: ControlLine::Reset, value: 1, hold_millis: LINE_HOLD_MILLIS });
    v.push(LineStep { line: ControlLine::Reset, value: 0, hold_millis: LINE_HOLD_MILLIS });
    v.push(LineStep { line: ControlLine::Download, value: 0, hold_millis: 0 });
    proof {
        assert(v@ =~= spec_download_mode_steps());
    }
    v
}

/// The pulse plan of the power long-press.
pub fn power_steps() -> (r: Vec<LineStep>)
    ensures
        r@ == spec_power_steps(),
{
    let mut v: Vec<LineStep> = Vec::new();
    v.push(LineStep { line: ControlLine::Power, value: 1, hold_millis: POWER_HOLD_MILLIS });
    v.push(LineStep { line: ControlLine::Power, value: 0, hold_millis: 0 });
    proof {
        assert(v@ =~= spec_power_steps());
    }
    v
}

/// Download-mode bring-up touches no line but download-mode and reset, and
/// its only transitions are download=1, reset=1, reset=0, download=0, in
/// that order, each of the first three held at least the minimum pulse
/// width.
pub proof fn lemma_download_mode_transitions()
    ensures
        spec_download_mode_steps().len() == 4,
        spec_download_mode_steps()[0] == (LineStep {
            line: ControlLine::Download,
            value: 1,
            hold_millis: LINE_HOLD_MILLIS,
        }),
        spec_download_mode_steps()[1] == (LineStep {
            line: ControlLine::Reset,
            value: 1,
            hold_millis: LINE_HOLD_MILLIS,
        }),
        spec_download_mode_steps()[2] == (LineStep {
            line: ControlLine::Reset,
            value: 0,
            hold_millis: LINE_HOLD_MILLIS,
        }),
        spec_download_mode_steps()[3] == (LineStep {
            line: ControlLine::Download,
            value: 0,
            hold_millis: 0,
        }),
        forall|i: int|
            0 <= i < spec_download_mode_steps().len()
                ==> (#[trigger] spec_download_mode_steps()[i]).line != ControlLine::Power,
        forall|i: int| 0 <= i < 3 ==> (#[trigger] spec_download_mode_steps()[i]).hold_millis
            >= LINE_HOLD_MILLIS,
{
}

} // verus!
