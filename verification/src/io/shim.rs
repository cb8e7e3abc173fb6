//! A pin for a line that is wired as an output and has no input path.
use crate::io::{IoPin, LineOp, PinMode, PinModel, Wire};
use vstd::prelude::*;

verus! {

/// Why a pin could not do what was asked of it.
#[derive(Clone, Copy, Debug, PartialEq, Eq, Structural)]
pub enum Error {
    /// The line has no input path.
    InputNotAvailableError,
}

/// Wraps a pin whose line must only ever be driven: a request for input
/// changes nothing on the hardware, and reading the level fails.
pub struct OutputOnlyIoPin<P: IoPin> {
    pin: P,
}

/// The model of an output-only pin on the given line.
pub open spec fn output_only(line: u8) -> PinModel {
    PinModel { line: line, input: None, output: None }
}

impl<P: IoPin> OutputOnlyIoPin<P> {
    #[verifier::type_invariant]
    spec fn driven(self) -> bool {
        self.pin.mode() == Some(PinMode::Output)
    }

    /// The number of the line behind the wrapped pin.
    pub closed spec fn line(&self) -> u8 {
        self.pin.model().line
    }

    /// Takes a pin that is an output, to keep it one.
    pub fn new(pin: P) -> (shim: OutputOnlyIoPin<P>)
        requires
            pin.mode() == Some(PinMode::Output),
        ensures
            shim.line() == pin.model().line,
            shim.model() == output_only(pin.model().line),
            shim.mode() == Some(PinMode::Output),
    {
        OutputOnlyIoPin { pin: pin }
    }
}

impl<P: IoPin> IoPin for OutputOnlyIoPin<P> {
    /// Whatever pin is wrapped, the line has no input path and nothing to
    /// switch.
    open spec fn model(&self) -> PinModel {
        output_only(self.line())
    }

    open spec fn mode(&self) -> Option<PinMode> {
        Some(PinMode::Output)
    }

    /// A request for input is not passed on: nothing is planned, and the
    /// wrapped pin stays the output that it is.
    fn into_input(&mut self, wire: &mut Wire)
        ensures
            *final(self) == *old(self),
            final(wire)@ == old(wire)@,
    {
        assert(wire@ + Seq::<LineOp>::empty() =~= wire@);
    }

    /// The wrapped pin is an output already: nothing is planned, and it
    /// stays as it is.
    fn into_output(&mut self, wire: &mut Wire)
        ensures
            *final(self) == *old(self),
            final(wire)@ == old(wire)@,
    {
        assert(wire@ + Seq::<LineOp>::empty() =~= wire@);
    }

    /// Reading the level fails, always and with the same error, and plans
    /// nothing.
    fn sample(&self, wire: &mut Wire) -> (r: Result<(), Error>)
        ensures
            r == Err::<(), Error>(Error::InputNotAvailableError),
            final(wire)@ == old(wire)@,
    {
        Err(Error::InputNotAvailableError)
    }

    #[inline]
    fn set_low(&self, wire: &mut Wire) {
        proof {
            use_type_invariant(self);
        }
        self.pin.set_low(wire)
    }

    #[inline]
    fn set_high(&self, wire: &mut Wire) {
        proof {
            use_type_invariant(self);
        }
        self.pin.set_high(wire)
    }
}

} // verus!
