pub mod chip;
pub mod cpu;
pub mod display;
pub mod keypad;
pub mod laws;
pub mod memory;
pub mod protocol;
pub mod timer;

use vstd::prelude::*;

use crate::emulator::chip::{Chip, ChipView};
use crate::emulator::protocol::{EmulationCommand, EmulationFrame};
use crate::emulator::display::screen_of;

verus! {

/// How many instructions run between two frames while the emulation plays.
pub const STEPS_PER_FRAME: usize = 10;

/// What the loop that drives the emulation does next.
#[derive(Debug, Clone, Copy, PartialEq, Eq, Structural)]
pub enum Control {
    /// Keep going.
    Continue,
    /// Stop the emulation: the user interface asked for it.
    Exit,
    /// Stop the emulation: the next instruction cannot be carried out (a
    /// return with an empty call stack, or an index register overflow).
    Fault,
}

/// Mathematical model of the emulation: the machine and whether it plays.
pub struct EmulatorView {
    pub chip: ChipView,
    pub running: bool,
}

/// Whether the emulation may go from `state` to `next` in one step: `state`
/// does not fault and one step leads from it to `next`.
pub open spec fn runs_to(state: ChipView, next: ChipView) -> bool {
    !state.faults() && state.steps_to(next)
}

/// Whether `trace` is a run of steps that never meets a faulting state
/// before its last element.
pub open spec fn is_run(trace: Seq<ChipView>) -> bool {
    &&& trace.len() >= 1
    &&& forall|i: int|
        0 <= i < trace.len() - 1 ==> #[trigger] runs_to(trace[i], trace[i + 1])
}

/// A run followed by one more step from its last state is a run.
proof fn lemma_extend_run(trace: Seq<ChipView>, next: ChipView)
    requires
        is_run(trace),
        !trace.last().faults(),
        trace.last().steps_to(next),
    ensures
        is_run(trace.push(next)),
{
    let extended = trace.push(next);
    assert forall|i: int| 0 <= i < extended.len() - 1 implies #[trigger] runs_to(
        extended[i],
        extended[i + 1],
    ) by {
        if i < trace.len() - 1 {
            assert(extended[i] == trace[i] && extended[i + 1] == trace[i + 1]);
        } else {
            assert(extended[i] == trace.last());
            assert(extended[i + 1] == next);
        }
    }
}

/// The decisions of the emulation loop: which commands change what, and how
/// many instructions run per frame.
pub struct Emulator {
    chip: Chip,
    running: bool,
}

impl View for Emulator {
    type V = EmulatorView;

    closed spec fn view(&self) -> EmulatorView {
        EmulatorView { chip: self.chip@, running: self.running }
    }
}

impl Emulator {
    pub open spec fn wf(&self) -> bool {
        self@.chip.memory.len() == crate::emulator::memory::DEFAULT_SIZE
    }

    /// A paused emulation of a machine just switched on.
    pub fn new() -> (emulator: Self)
        ensures
            emulator.wf(),
            emulator@.chip == ChipView::initial(),
            !emulator@.running,
    {
        Self { chip: Chip::new(), running: false }
    }

    /// The machine.
    pub fn chip(&self) -> (chip: &Chip)
        ensures
            chip@ == self@.chip,
            self.wf() ==> chip.wf(),
    {
        &self.chip
    }

    /// Whether the emulation plays.
    pub fn is_running(&self) -> (running: bool)
        ensures
            running == self@.running,
    {
        self.running
    }

    /// The frame that the machine last published.
    pub fn current_frame(&self) -> (frame: EmulationFrame)
        ensures
            screen_of(frame.pixels) == self@.chip.frame,
    {
        self.chip.current_frame()
    }

    /// Reacts to one command: `Load` loads a program (a program that does not
    /// fit is refused by the machine and otherwise ignored), `Play` and `Pause`
    /// start and stop the emulation, `Step` runs one instruction, `Exit` ends
    /// the loop. A `Step` that would fault changes nothing and yields `Fault`.
    pub fn handle_command(&mut self, command: EmulationCommand) -> (control: Control)
        requires
            old(self).wf(),
        ensures
            final(self).wf(),
            match command {
                EmulationCommand::Load { bytes } => control == Control::Continue && final(self)@
                    == (EmulatorView { chip: old(self)@.chip.loaded(bytes@), ..old(self)@ }),
                EmulationCommand::Play => control == Control::Continue && final(self)@ == (
                EmulatorView { running: true, ..old(self)@ }),
                EmulationCommand::Pause => control == Control::Continue && final(self)@ == (
                EmulatorView { running: false, ..old(self)@ }),
                EmulationCommand::Step => if old(self)@.chip.faults() {
                    control == Control::Fault && final(self)@ == old(self)@
                } else {
                    control == Control::Continue && final(self)@.running == old(self)@.running
                        && old(self)@.chip.steps_to(final(self)@.chip)
                },
                EmulationCommand::Exit => control == Control::Exit && final(self)@ == old(self)@,
            },
    {
        match command {
            EmulationCommand::Load { bytes } => {
                let _ = self.chip.load(bytes.as_slice());
                Control::Continue
            },
            EmulationCommand::Play => {
                self.running = true;
                Control::Continue
            },
            EmulationCommand::Pause => {
                self.running = false;
                Control::Continue
            },
            EmulationCommand::Step => {
                if self.chip.step_faults() {
                    Control::Fault
                } else {
                    let _ = self.chip.step();
                    Control::Continue
                }
            },
            EmulationCommand::Exit => Control::Exit,
        }
    }

    /// One frame of emulation: when playing, runs `STEPS_PER_FRAME`
    /// instructions, stopping early with `Fault` before an instruction that
    /// cannot be carried out. When paused, nothing changes.
    pub fn run_frame(&mut self) -> (control: Control)
        requires
            old(self).wf(),
        ensures
            final(self).wf(),
            final(self)@.running == old(self)@.running,
            !old(self)@.running ==> control == Control::Continue && final(self)@ == old(self)@,
            old(self)@.running ==> exists|trace: Seq<ChipView>|
                {
                    &&& is_run(trace)
                    &&& trace[0] == old(self)@.chip
                    &&& trace.last() == final(self)@.chip
                    &&& match control {
                        Control::Continue => trace.len() == STEPS_PER_FRAME + 1,
                        Control::Fault => trace.len() <= STEPS_PER_FRAME && trace.last().faults(),
                        Control::Exit => false,
                    }
                },
    {
        if !self.running {
            return Control::Continue;
        }
        let ghost mut trace: Seq<ChipView> = seq![self@.chip];
        let mut count: usize = 0;
        while count < STEPS_PER_FRAME
            invariant
                self.wf(),
                self@.running == old(self)@.running,
                self@.running,
                count <= STEPS_PER_FRAME,
                trace.len() == count + 1,
                is_run(trace),
                trace[0] == old(self)@.chip,
                trace.last() == self@.chip,
            decreases STEPS_PER_FRAME - count,
        {
            if self.chip.step_faults() {
                assert(is_run(trace) && trace[0] == old(self)@.chip && trace.last() == self@.chip
                    && trace.len() <= STEPS_PER_FRAME && trace.last().faults());
                return Control::Fault;
            }
            let _ = self.chip.step();
            proof {
                lemma_extend_run(trace, self@.chip);
                trace = trace.push(self@.chip);
            }
            count = count + 1;
        }
        Control::Continue
    }
}

} // verus!
