//! Lines, the operations on them, and switchable I/O pins.
//!
//! A pin of this crate is the description of one line: its number and the
//! electrical modes it can take. Using a pin plans operations; it appends
//! them to a [`Wire`] in the order in which they have to happen.
use vstd::prelude::*;

pub mod shim;
pub mod stm32f1xx;

verus! {

/// How a line is terminated while it is an input.
#[derive(Clone, Copy, Debug, PartialEq, Eq, Structural)]
pub enum InputMode {
    Floating,
    PullDown,
    PullUp,
}

/// How a line is driven while it is an output.
#[derive(Clone, Copy, Debug, PartialEq, Eq, Structural)]
pub enum OutputMode {
    OpenDrain,
    PushPull,
}

/// One thing to do on the hardware.
#[derive(Clone, Copy, Debug, PartialEq, Eq, Structural)]
pub enum LineOp {
    /// Make the line an input, terminated as given.
    MakeInput(u8, InputMode),
    /// Make the line an output, driven as given.
    MakeOutput(u8, OutputMode),
    /// Drive the line high (`true`) or low (`false`).
    Drive(u8, bool),
    /// Read the level of the line.
    Sample(u8),
    /// Wait for at least this many microseconds.
    DelayUs(u32),
}

/// The operations planned so far, oldest first.
pub type Wire = Vec<LineOp>;

/// What a pin is, as far as the wire can tell.
pub struct PinModel {
    /// The number of the line.
    pub line: u8,
    /// The termination a switch to input asks for; `None` where the line has
    /// no input path.
    pub input: Option<InputMode>,
    /// The drive a switch to output asks for; `None` where the line is wired
    /// as an output for good and a switch has nothing to do.
    pub output: Option<OutputMode>,
}

/// The operations of a switch to input mode.
pub open spec fn input_switch(pin: PinModel) -> Seq<LineOp> {
    match pin.input {
        Some(mode) => seq![LineOp::MakeInput(pin.line, mode)],
        None => Seq::empty(),
    }
}

/// The operations of a switch to output mode.
pub open spec fn output_switch(pin: PinModel) -> Seq<LineOp> {
    match pin.output {
        Some(mode) => seq![LineOp::MakeOutput(pin.line, mode)],
        None => Seq::empty(),
    }
}

/// The mode that a pin was switched to.
#[derive(Clone, Copy, Debug, PartialEq, Eq, Structural)]
pub enum PinMode {
    Input,
    Output,
}

/// The mode of a pin after a switch to input: input, unless the line has no
/// input path and the pin stays as it was.
pub open spec fn after_input(pin: PinModel, mode: Option<PinMode>) -> Option<PinMode> {
    if pin.input is Some {
        Some(PinMode::Input)
    } else {
        mode
    }
}

/// Whether the level of the pin may be asked for: it was switched to input,
/// or it has no input path and asking fails.
pub open spec fn can_sample(pin: PinModel, mode: Option<PinMode>) -> bool {
    mode == Some(PinMode::Input) || pin.input is None
}

/// A pin that can be switched between input and output. Its level is driven
/// only while it is an output and read only while it is an input.
pub trait IoPin {
    /// The line behind the pin and its modes.
    spec fn model(&self) -> PinModel;

    /// The mode that the pin was switched to last; `None` before the first
    /// switch.
    spec fn mode(&self) -> Option<PinMode>;

    /// Switch to input mode. A pin without an input path plans nothing and
    /// stays as it is; a pin that is an input already stays one.
    fn into_input(&mut self, wire: &mut Wire)
        ensures
            final(self).model() == old(self).model(),
            final(self).mode() == after_input(old(self).model(), old(self).mode()),
            final(wire)@ == old(wire)@ + input_switch(old(self).model()),
    ;

    /// Switch to output mode. A pin that is an output already stays one.
    fn into_output(&mut self, wire: &mut Wire)
        ensures
            final(self).model() == old(self).model(),
            final(self).mode() == Some(PinMode::Output),
            final(wire)@ == old(wire)@ + output_switch(old(self).model()),
    ;

    /// Read the level of the line. Fails, and plans nothing, where the line
    /// has no input path.
    fn sample(&self, wire: &mut Wire) -> (r: Result<(), shim::Error>)
        requires
            can_sample(self.model(), self.mode()),
        ensures
            self.model().input is Some ==> r is Ok && final(wire)@ == old(wire)@.push(
                LineOp::Sample(self.model().line),
            ),
            self.model().input is None ==> r == Err::<(), shim::Error>(
                shim::Error::InputNotAvailableError,
            ) && final(wire)@ == old(wire)@,
    ;

    /// Drive the line low.
    fn set_low(&self, wire: &mut Wire)
        requires
            self.mode() == Some(PinMode::Output),
        ensures
            final(wire)@ == old(wire)@.push(LineOp::Drive(self.model().line, false)),
    ;

    /// Drive the line high.
    fn set_high(&self, wire: &mut Wire)
        requires
            self.mode() == Some(PinMode::Output),
        ensures
            final(wire)@ == old(wire)@.push(LineOp::Drive(self.model().line, true)),
    ;
}

} // verus!
