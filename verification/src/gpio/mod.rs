//! Parallel buses made of pins: data lines, chip select, data/command
//! select, and the two strobes.
use crate::interface::{
    input_switches, levels, output_switches, readable_prefix, samples, BusModel, DisplayError,
    WriteMode,
};
use crate::io::shim::Error;
use crate::io::{can_sample, IoPin, PinMode, PinModel, Wire};
use vstd::prelude::*;

pub use self::gpio16::GPIO16ParallelInterface;
pub use self::gpio18::GPIO18ParallelInterface;
pub use self::gpio8::GPIO8ParallelInterface;

mod gpio16;
mod gpio18;
mod gpio8;

verus! {

/// The models of a row of pins.
pub open spec fn models<P: IoPin>(pins: Seq<P>) -> Seq<PinModel> {
    Seq::new(pins.len(), |i: int| pins[i].model())
}

/// The pins of a parallel bus, whatever its width.
pub(crate) struct Lines<DB: IoPin, CS: IoPin, DCX: IoPin, RDX: IoPin, WRX: IoPin, const N: usize> {
    pub(crate) data: [DB; N],
    pub(crate) cs: CS,
    pub(crate) dcx: DCX,
    pub(crate) rdx: RDX,
    pub(crate) wrx: WRX,
}

/// Every pin of the row is an output.
pub open spec fn all_outputs<P: IoPin>(pins: Seq<P>) -> bool {
    forall|i: int| 0 <= i < pins.len() ==> (#[trigger] pins[i]).mode() == Some(PinMode::Output)
}

/// The level of every pin of the row may be asked for.
pub open spec fn all_sampled<P: IoPin>(pins: Seq<P>) -> bool {
    forall|i: int|
        0 <= i < pins.len() ==> can_sample((#[trigger] pins[i]).model(), pins[i].mode())
}

/// Switches every pin to output mode, first to last.
fn plan_outputs<P: IoPin, const N: usize>(pins: &mut [P; N], wire: &mut Wire)
    ensures
        models(final(pins)@) == models(old(pins)@),
        all_outputs(final(pins)@),
        final(wire)@ == old(wire)@ + output_switches(models(old(pins)@), old(pins)@.len()),
{
    let ghost before = wire@;
    let ghost row = models(pins@);
    let mut i: usize = 0;
    assert(wire@ =~= before + output_switches(row, 0));
    while i < N
        invariant
            i <= N,
            row.len() == N,
            models(pins@) == row,
            forall|j: int| 0 <= j < i ==> (#[trigger] pins@[j]).mode() == Some(PinMode::Output),
            wire@ == before + output_switches(row, i as nat),
        decreases N - i,
    {
        let ghost was = pins@;
        assert(row[i as int] == was[i as int].model());
        pins[i].into_output(wire);
        assert(forall|j: int| 0 <= j < was.len() && j != i ==> pins@[j] == was[j]);
        assert(models(pins@) =~= row) by {
            assert forall|j: int| 0 <= j < row.len() implies models(pins@)[j] == row[j] by {
                assert(row[j] == was[j].model());
            }
        }
        i += 1;
        assert(wire@ =~= before + output_switches(row, i as nat));
    }
}

/// Switches every pin to input mode, first to last.
fn plan_inputs<P: IoPin, const N: usize>(pins: &mut [P; N], wire: &mut Wire)
    ensures
        models(final(pins)@) == models(old(pins)@),
        all_sampled(final(pins)@),
        final(wire)@ == old(wire)@ + input_switches(models(old(pins)@), old(pins)@.len()),
{
    let ghost before = wire@;
    let ghost row = models(pins@);
    let mut i: usize = 0;
    assert(wire@ =~= before + input_switches(row, 0));
    while i < N
        invariant
            i <= N,
            row.len() == N,
            models(pins@) == row,
            forall|j: int|
                0 <= j < i ==> can_sample((#[trigger] pins@[j]).model(), pins@[j].mode()),
            wire@ == before + input_switches(row, i as nat),
        decreases N - i,
    {
        let ghost was = pins@;
        assert(row[i as int] == was[i as int].model());
        pins[i].into_input(wire);
        assert(forall|j: int| 0 <= j < was.len() && j != i ==> pins@[j] == was[j]);
        assert(models(pins@) =~= row) by {
            assert forall|j: int| 0 <= j < row.len() implies models(pins@)[j] == row[j] by {
                assert(row[j] == was[j].model());
            }
        }
        i += 1;
        assert(wire@ =~= before + input_switches(row, i as nat));
    }
}

/// Drives pin `i` to bit `i` of `word`, for every pin.
fn plan_levels<P: IoPin, const N: usize>(pins: &[P; N], wire: &mut Wire, word: u32)
    requires
        N <= 32,
        all_outputs(pins@),
    ensures
        final(wire)@ == old(wire)@ + levels(models(pins@), word, pins@.len()),
{
    let ghost before = wire@;
    let mut i: usize = 0;
    assert(wire@ =~= before + levels(models(pins@), word, 0));
    while i < N
        invariant
            i <= N,
            N <= 32,
            all_outputs(pins@),
            wire@ == before + levels(models(pins@), word, i as nat),
        decreases N - i,
    {
        if (word >> (i as u32)) & 1 == 1 {
            pins[i].set_high(wire);
        } else {
            pins[i].set_low(wire);
        }
        i += 1;
        assert(wire@ =~= before + levels(models(pins@), word, i as nat));
    }
}

/// Reads every pin, first to last, and stops before the first that cannot be
/// read.
fn plan_samples<P: IoPin, const N: usize>(pins: &[P; N], wire: &mut Wire) -> (r: Result<
    (),
    Error,
>)
    requires
        all_sampled(pins@),
    ensures
        final(wire)@ == old(wire)@ + samples(
            models(pins@),
            readable_prefix(models(pins@), pins@.len()),
        ),
        r is Ok <==> readable_prefix(models(pins@), pins@.len()) == pins@.len(),
{
    let ghost before = wire@;
    let mut i: usize = 0;
    assert(wire@ =~= before + samples(models(pins@), 0));
    while i < N
        invariant
            i <= N,
            before == old(wire)@,
            all_sampled(pins@),
            readable_prefix(models(pins@), i as nat) == i,
            wire@ == before + samples(models(pins@), i as nat),
        decreases N - i,
    {
        match pins[i].sample(wire) {
            Ok(()) => {},
            Err(e) => {
                proof {
                    assert(models(pins@)[i as int] == pins@[i as int].model());
                    lemma_readable_prefix_stops(models(pins@), i as nat, pins@.len());
                }
                return Err(e);
            },
        }
        i += 1;
        assert(wire@ =~= before + samples(models(pins@), i as nat));
    }
    Ok(())
}

/// Once a pin cannot be read, the readable prefix grows no further.
proof fn lemma_readable_prefix_stops(pins: Seq<PinModel>, k: nat, n: nat)
    requires
        k < n <= pins.len(),
        readable_prefix(pins, k) == k,
        pins[k as int].input is None,
    ensures
        readable_prefix(pins, n) == k,
    decreases n,
{
    if n > k + 1 {
        lemma_readable_prefix_stops(pins, k, (n - 1) as nat);
    }
}

impl<DB: IoPin, CS: IoPin, DCX: IoPin, RDX: IoPin, WRX: IoPin, const N: usize> Lines<
    DB,
    CS,
    DCX,
    RDX,
    WRX,
    N,
> {
    pub(crate) open spec fn model(&self) -> BusModel {
        BusModel {
            data: models(self.data@),
            cs: self.cs.model(),
            dcx: self.dcx.model(),
            rdx: self.rdx.model(),
            wrx: self.wrx.model(),
        }
    }

    /// The control lines are outputs.
    pub(crate) open spec fn controlled(&self) -> bool {
        &&& self.cs.mode() == Some(PinMode::Output)
        &&& self.dcx.mode() == Some(PinMode::Output)
        &&& self.rdx.mode() == Some(PinMode::Output)
        &&& self.wrx.mode() == Some(PinMode::Output)
    }

    /// The control lines are outputs and the data lines can be asked for
    /// their level.
    pub(crate) open spec fn listening(&self) -> bool {
        self.controlled() && all_sampled(self.data@)
    }

    /// The control lines become outputs and go high.
    pub(crate) fn idle(&mut self, wire: &mut Wire)
        ensures
            final(self).model() == old(self).model(),
            final(self).data@ == old(self).data@,
            final(self).controlled(),
            final(wire)@ == old(wire)@ + old(self).model().idle(),
    {
        self.dcx.into_output(wire);
        self.cs.into_output(wire);
        self.rdx.into_output(wire);
        self.wrx.into_output(wire);
        self.dcx.set_high(wire);
        self.cs.set_high(wire);
        self.rdx.set_high(wire);
        self.wrx.set_high(wire);
        assert(wire@ =~= old(wire)@ + old(self).model().idle());
    }

    /// The control lines become outputs, both strobes idle, the chip is
    /// selected and the data/command line goes to `dcx`.
    fn select(&mut self, wire: &mut Wire, dcx: bool)
        ensures
            final(self).model() == old(self).model(),
            final(self).data@ == old(self).data@,
            final(self).controlled(),
            final(wire)@ == old(wire)@ + old(self).model().control_outputs() + old(
                self,
            ).model().select(dcx),
    {
        self.cs.into_output(wire);
        self.rdx.into_output(wire);
        self.dcx.into_output(wire);
        self.wrx.into_output(wire);
        self.rdx.set_high(wire);
        self.wrx.set_high(wire);
        self.cs.set_low(wire);
        if dcx {
            self.dcx.set_high(wire);
        } else {
            self.dcx.set_low(wire);
        }
        assert(wire@ =~= old(wire)@ + old(self).model().control_outputs() + old(
            self,
        ).model().select(dcx));
    }

    /// One write transaction.
    pub(crate) fn write_stream(&mut self, wire: &mut Wire, mode: WriteMode, words: &[u32])
        requires
            N <= 32,
        ensures
            final(self).model() == old(self).model(),
            final(wire)@ == old(wire)@ + old(self).model().write_script(mode, words@),
    {
        let ghost before = wire@;
        let ghost bus = self.model();
        plan_outputs(&mut self.data, wire);
        match mode {
            WriteMode::Command => self.select(wire, false),
            WriteMode::Data => self.select(wire, true),
        }
        assert(wire@ =~= before + bus.write_opening(mode));
        let ghost opened = wire@;
        assert(wire@ =~= opened + bus.write_words(words@, 0));
        let mut i: usize = 0;
        while i < words.len()
            invariant
                i <= words.len(),
                N <= 32,
                bus == self.model(),
                all_outputs(self.data@),
                self.controlled(),
                wire@ == opened + bus.write_words(words@, i as nat),
            decreases words.len() - i,
        {
            plan_levels(&self.data, wire, words[i]);
            self.wrx.set_low(wire);
            self.wrx.set_high(wire);
            i += 1;
            assert(wire@ =~= opened + bus.write_words(words@, i as nat));
        }
        match mode {
            WriteMode::Command => self.dcx.set_high(wire),
            WriteMode::Data => self.dcx.set_low(wire),
        }
        self.wrx.set_high(wire);
        self.cs.set_high(wire);
        assert(wire@ =~= before + bus.write_script(mode, words@));
    }

    /// One pulse of the read strobe.
    fn read_strobe(&self, wire: &mut Wire) -> (r: Result<(), DisplayError>)
        requires
            self.listening(),
        ensures
            final(wire)@ == old(wire)@ + self.model().read_strobe(),
            r is Ok <==> self.model().readable(),
            r is Err ==> r == Err::<(), DisplayError>(DisplayError::BusReadError),
    {
        let ghost bus = self.model();
        self.rdx.set_low(wire);
        match plan_samples(&self.data, wire) {
            Ok(()) => {},
            Err(_) => {
                assert(wire@ =~= old(wire)@ + bus.read_strobe());
                return Err(DisplayError::BusReadError);
            },
        }
        self.rdx.set_high(wire);
        assert(wire@ =~= old(wire)@ + bus.read_strobe());
        Ok(())
    }

    /// One leg of a read transaction.
    pub(crate) fn read_stream(&mut self, wire: &mut Wire, answer: Option<bool>) -> (r: Result<
        (),
        DisplayError,
    >)
        requires
            answer is Some ==> old(self).listening(),
        ensures
            final(self).model() == old(self).model(),
            final(self).listening(),
            final(wire)@ == old(wire)@ + old(self).model().read_leg(answer),
            r is Ok <==> (answer == Some(false) || old(self).model().readable()),
            r is Err ==> r == Err::<(), DisplayError>(DisplayError::BusReadError),
    {
        let ghost before = wire@;
        let ghost bus = self.model();
        match answer {
            None => {
                plan_inputs(&mut self.data, wire);
                        self.select(wire, true);
                assert(wire@ =~= before + bus.read_opening());
                let r = self.read_strobe(wire);
                assert(wire@ =~= before + bus.read_leg(answer));
                r
            },
            Some(true) => self.read_strobe(wire),
            Some(false) => {
                self.dcx.set_low(wire);
                self.cs.set_high(wire);
                assert(wire@ =~= before + bus.read_leg(answer));
                Ok(())
            },
        }
    }
}

} // verus!
