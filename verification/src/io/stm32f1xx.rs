//! Pins for lines that can be switched at run time, with the input and
//! output modes of the STM32F1 family.
use crate::io::shim::Error;
use crate::io::{InputMode, IoPin, LineOp, OutputMode, PinMode, PinModel, Wire};
use vstd::prelude::*;

verus! {

/// A type that names an input mode.
pub trait InputPinType {
    spec fn input_mode() -> InputMode;

    fn mode() -> (mode: InputMode)
        ensures
            mode == Self::input_mode(),
    ;
}

/// A type that names an output mode.
pub trait OutputPinType {
    spec fn output_mode() -> OutputMode;

    fn mode() -> (mode: OutputMode)
        ensures
            mode == Self::output_mode(),
    ;
}

pub struct FloatingInput {}

pub struct PullDownInput {}

pub struct PullUpInput {}

impl InputPinType for FloatingInput {
    open spec fn input_mode() -> InputMode {
        InputMode::Floating
    }

    fn mode() -> (mode: InputMode) {
        InputMode::Floating
    }
}

impl InputPinType for PullUpInput {
    open spec fn input_mode() -> InputMode {
        InputMode::PullUp
    }

    fn mode() -> (mode: InputMode) {
        InputMode::PullUp
    }
}

impl InputPinType for PullDownInput {
    open spec fn input_mode() -> InputMode {
        InputMode::PullDown
    }

    fn mode() -> (mode: InputMode) {
        InputMode::PullDown
    }
}

pub struct OpenDrainOutput {}

pub struct PushPullOutput {}

impl OutputPinType for OpenDrainOutput {
    open spec fn output_mode() -> OutputMode {
        OutputMode::OpenDrain
    }

    fn mode() -> (mode: OutputMode) {
        OutputMode::OpenDrain
    }
}

impl OutputPinType for PushPullOutput {
    open spec fn output_mode() -> OutputMode {
        OutputMode::PushPull
    }

    fn mode() -> (mode: OutputMode) {
        OutputMode::PushPull
    }
}

/// A pin that is switched between one input mode and one output mode.
pub struct DynamicIoPin {
    line: u8,
    input: InputMode,
    output: OutputMode,
    mode: Option<PinMode>,
}

/// The model of a switchable pin on the given line.
pub open spec fn dynamic(line: u8, input: InputMode, output: OutputMode) -> PinModel {
    PinModel { line: line, input: Some(input), output: Some(output) }
}

impl DynamicIoPin {
    /// The pin on `line` that takes the input mode `I` and the output mode
    /// `O`. It is in neither until it is switched.
    pub fn new<I: InputPinType, O: OutputPinType>(line: u8) -> (pin: DynamicIoPin)
        ensures
            pin.model() == dynamic(line, I::input_mode(), O::output_mode()),
            pin.mode() is None,
    {
        DynamicIoPin { line: line, input: I::mode(), output: O::mode(), mode: None }
    }

    /// The mode that the pin was switched to last.
    pub fn switched_to(&self) -> (mode: Option<PinMode>)
        ensures
            mode == self.mode(),
    {
        self.mode
    }
}

impl IoPin for DynamicIoPin {
    closed spec fn model(&self) -> PinModel {
        dynamic(self.line, self.input, self.output)
    }

    closed spec fn mode(&self) -> Option<PinMode> {
        self.mode
    }

    fn into_input(&mut self, wire: &mut Wire) {
        wire.push(LineOp::MakeInput(self.line, self.input));
        self.mode = Some(PinMode::Input);
        assert(wire@ =~= old(wire)@ + seq![LineOp::MakeInput(self.line, self.input)]);
    }

    fn into_output(&mut self, wire: &mut Wire) {
        wire.push(LineOp::MakeOutput(self.line, self.output));
        self.mode = Some(PinMode::Output);
        assert(wire@ =~= old(wire)@ + seq![LineOp::MakeOutput(self.line, self.output)]);
    }

    fn sample(&self, wire: &mut Wire) -> (r: Result<(), Error>) {
        wire.push(LineOp::Sample(self.line));
        Ok(())
    }

    #[inline(always)]
    fn set_low(&self, wire: &mut Wire) {
        wire.push(LineOp::Drive(self.line, false));
    }

    #[inline(always)]
    fn set_high(&self, wire: &mut Wire) {
        wire.push(LineOp::Drive(self.line, true));
    }
}

} // verus!
