//! What a display driver asks of a bus, and what a parallel bus puts on the
//! wire for it.
use crate::io::{input_switch, output_switch, LineOp, PinModel, Wire};
use vstd::prelude::*;

verus! {

/// Whether the words of a transaction are opcodes or their parameters.
#[derive(Clone, Copy, Debug, PartialEq, Eq, Structural)]
pub enum WriteMode {
    Command,
    Data,
}

/// What can go wrong between a driver and its display.
#[derive(Clone, Copy, Debug, PartialEq, Eq, Structural)]
pub enum DisplayError {
    /// The pixel format is none that the controller knows.
    InvalidFormatError,
    /// A line could not be driven.
    BusWriteError,
    /// A line could not be read.
    BusReadError,
    /// The bus cannot carry the pixel format.
    DataFormatNotImplemented,
}

/// The number of data lines of a bus.
#[derive(Clone, Copy, Debug, PartialEq, Eq, Structural)]
pub enum BusWidth {
    Bits8,
    Bits16,
    Bits18,
}

impl BusWidth {
    /// The number of data lines.
    pub open spec fn lines(self) -> nat {
        match self {
            BusWidth::Bits8 => 8,
            BusWidth::Bits16 => 16,
            BusWidth::Bits18 => 18,
        }
    }

    pub fn bits(&self) -> (n: usize)
        ensures
            n == self.lines(),
    {
        match self {
            BusWidth::Bits8 => 8,
            BusWidth::Bits16 => 16,
            BusWidth::Bits18 => 18,
        }
    }
}

/// The lines of a parallel bus: data line `i` carries bit `i` of a word.
pub struct BusModel {
    pub data: Seq<PinModel>,
    /// Chip select, active low.
    pub cs: PinModel,
    /// Data/command select: low for a command, high for data.
    pub dcx: PinModel,
    /// Read strobe, active low.
    pub rdx: PinModel,
    /// Write strobe: the controller takes the word on the rising edge.
    pub wrx: PinModel,
}

/// Bit `bit` of `word`.
pub open spec fn level(word: u32, bit: nat) -> bool {
    (word >> (bit as u32)) & 1 == 1
}

/// The switch to output mode of the first `n` pins, in order.
pub open spec fn output_switches(pins: Seq<PinModel>, n: nat) -> Seq<LineOp>
    decreases n,
{
    if n == 0 {
        Seq::empty()
    } else {
        output_switches(pins, (n - 1) as nat) + output_switch(pins[n - 1])
    }
}

/// The switch to input mode of the first `n` pins, in order.
pub open spec fn input_switches(pins: Seq<PinModel>, n: nat) -> Seq<LineOp>
    decreases n,
{
    if n == 0 {
        Seq::empty()
    } else {
        input_switches(pins, (n - 1) as nat) + input_switch(pins[n - 1])
    }
}

/// The first `n` data lines driven to the bits of `word`, lowest bit first.
pub open spec fn levels(pins: Seq<PinModel>, word: u32, n: nat) -> Seq<LineOp> {
    Seq::new(n, |i: int| LineOp::Drive(pins[i].line, level(word, i as nat)))
}

/// The first `n` data lines read, lowest bit first.
pub open spec fn samples(pins: Seq<PinModel>, n: nat) -> Seq<LineOp> {
    Seq::new(n, |i: int| LineOp::Sample(pins[i].line))
}

/// The number of pins, counted from the first, that can be read before one
/// among the first `n` cannot.
pub open spec fn readable_prefix(pins: Seq<PinModel>, n: nat) -> nat
    decreases n,
{
    if n == 0 {
        0
    } else {
        let before = readable_prefix(pins, (n - 1) as nat);
        if before == n - 1 && pins[n - 1].input is Some {
            n
        } else {
            before
        }
    }
}

impl BusModel {
    /// Every data line has an input path.
    pub open spec fn readable(self) -> bool {
        readable_prefix(self.data, self.data.len()) == self.data.len()
    }

    /// The four control lines switched to output mode.
    pub open spec fn control_outputs(self) -> Seq<LineOp> {
        output_switch(self.cs) + output_switch(self.rdx) + output_switch(self.dcx) + output_switch(
            self.wrx,
        )
    }

    /// Both strobes idle, the chip selected, and the data/command line at
    /// `dcx`.
    pub open spec fn select(self, dcx: bool) -> Seq<LineOp> {
        seq![
            LineOp::Drive(self.rdx.line, true),
            LineOp::Drive(self.wrx.line, true),
            LineOp::Drive(self.cs.line, false),
            LineOp::Drive(self.dcx.line, dcx),
        ]
    }

    /// What a bus does when it is set up: the control lines become outputs
    /// and go high.
    pub open spec fn idle(self) -> Seq<LineOp> {
        output_switch(self.dcx) + output_switch(self.cs) + output_switch(self.rdx) + output_switch(
            self.wrx,
        ) + seq![
            LineOp::Drive(self.dcx.line, true),
            LineOp::Drive(self.cs.line, true),
            LineOp::Drive(self.rdx.line, true),
            LineOp::Drive(self.wrx.line, true),
        ]
    }

    /// The start of a write transaction.
    pub open spec fn write_opening(self, mode: WriteMode) -> Seq<LineOp> {
        output_switches(self.data, self.data.len()) + self.control_outputs() + self.select(
            mode is Data,
        )
    }

    /// One word: its bits on the data lines, then a pulse of the write strobe.
    pub open spec fn write_word(self, word: u32) -> Seq<LineOp> {
        levels(self.data, word, self.data.len()) + seq![
            LineOp::Drive(self.wrx.line, false),
            LineOp::Drive(self.wrx.line, true),
        ]
    }

    /// The first `n` of `words`, one after the other.
    pub open spec fn write_words(self, words: Seq<u32>, n: nat) -> Seq<LineOp>
        decreases n,
    {
        if n == 0 {
            Seq::empty()
        } else {
            self.write_words(words, (n - 1) as nat) + self.write_word(words[n - 1])
        }
    }

    /// The end of a write transaction: the data/command line goes to the
    /// other level, the strobe idles, the chip is released.
    pub open spec fn write_closing(self, mode: WriteMode) -> Seq<LineOp> {
        seq![
            LineOp::Drive(self.dcx.line, mode is Command),
            LineOp::Drive(self.wrx.line, true),
            LineOp::Drive(self.cs.line, true),
        ]
    }

    /// A whole write transaction.
    pub open spec fn write_script(self, mode: WriteMode, words: Seq<u32>) -> Seq<LineOp> {
        self.write_opening(mode) + self.write_words(words, words.len()) + self.write_closing(mode)
    }

    /// The first `n` of `runs`, each a write transaction of its own in data
    /// mode.
    pub open spec fn write_runs(self, runs: Seq<Seq<u32>>, n: nat) -> Seq<LineOp>
        decreases n,
    {
        if n == 0 {
            Seq::empty()
        } else {
            self.write_runs(runs, (n - 1) as nat) + self.write_script(WriteMode::Data, runs[n - 1])
        }
    }

    /// The start of a read transaction.
    pub open spec fn read_opening(self) -> Seq<LineOp> {
        input_switches(self.data, self.data.len()) + self.control_outputs() + self.select(true)
    }

    /// One pulse of the read strobe, with the data lines read while it is
    /// low. Where a data line has no input path, the pulse ends before that
    /// line, with the strobe still low.
    pub open spec fn read_strobe(self) -> Seq<LineOp> {
        if self.readable() {
            seq![LineOp::Drive(self.rdx.line, false)] + samples(self.data, self.data.len())
                + seq![LineOp::Drive(self.rdx.line, true)]
        } else {
            seq![LineOp::Drive(self.rdx.line, false)] + samples(
                self.data,
                readable_prefix(self.data, self.data.len()),
            )
        }
    }

    /// `n` pulses of the read strobe.
    pub open spec fn read_strobes(self, n: nat) -> Seq<LineOp>
        decreases n,
    {
        if n == 0 {
            Seq::empty()
        } else {
            self.read_strobes((n - 1) as nat) + self.read_strobe()
        }
    }

    /// The end of a read transaction.
    pub open spec fn read_closing(self) -> Seq<LineOp> {
        seq![LineOp::Drive(self.dcx.line, false), LineOp::Drive(self.cs.line, true)]
    }

    /// One leg of a read transaction. With no answer yet it is the opening
    /// and the first pulse; after the answer "more" another pulse; after the
    /// answer "stop" the closing.
    pub open spec fn read_leg(self, answer: Option<bool>) -> Seq<LineOp> {
        match answer {
            None => self.read_opening() + self.read_strobe(),
            Some(more) => if more {
                self.read_strobe()
            } else {
                self.read_closing()
            },
        }
    }

    /// A whole read transaction of `pulses` words.
    pub open spec fn read_script(self, pulses: nat) -> Seq<LineOp> {
        self.read_opening() + self.read_strobes(pulses) + self.read_closing()
    }
}

/// Among runs that are followed by others, the first `k` lower to the same
/// operations as among those runs alone.
pub proof fn lemma_write_runs_prefix(bus: BusModel, a: Seq<Seq<u32>>, b: Seq<Seq<u32>>, k: nat)
    requires
        k <= a.len(),
    ensures
        bus.write_runs(a + b, k) == bus.write_runs(a, k),
    decreases k,
{
    if k > 0 {
        lemma_write_runs_prefix(bus, a, b, (k - 1) as nat);
        assert((a + b)[k - 1] == a[k - 1]);
    }
}

/// Runs that follow one another lower to operations that follow one
/// another.
pub proof fn lemma_write_runs_concat(bus: BusModel, a: Seq<Seq<u32>>, b: Seq<Seq<u32>>, j: nat)
    requires
        j <= b.len(),
    ensures
        bus.write_runs(a + b, a.len() + j) == bus.write_runs(a, a.len()) + bus.write_runs(b, j),
    decreases j,
{
    if j == 0 {
        lemma_write_runs_prefix(bus, a, b, a.len());
        assert(bus.write_runs(a, a.len()) + bus.write_runs(b, 0) =~= bus.write_runs(a, a.len()));
    } else {
        lemma_write_runs_concat(bus, a, b, (j - 1) as nat);
        assert((a + b)[a.len() + j - 1] == b[j - 1]);
        assert(bus.write_runs(a + b, a.len() + j) =~= bus.write_runs(a, a.len())
            + bus.write_runs(b, j));
    }
}

/// What the legs of a read transaction put on the wire: the first leg, then
/// one leg for each of the first `n` answers of the consumer.
pub open spec fn read_legs(bus: BusModel, answers: Seq<bool>, n: nat) -> Seq<LineOp>
    decreases n,
{
    if n == 0 {
        bus.read_leg(None)
    } else {
        read_legs(bus, answers, (n - 1) as nat) + bus.read_leg(Some(answers[n - 1]))
    }
}

/// How often the line is driven low in `ops`.
pub open spec fn strobes(ops: Seq<LineOp>, line: u8) -> nat
    decreases ops.len(),
{
    if ops.len() == 0 {
        0
    } else {
        strobes(ops.drop_last(), line) + if ops.last() == LineOp::Drive(line, false) {
            1nat
        } else {
            0nat
        }
    }
}

/// Operations that follow one another drive a line low as often as both
/// together.
pub proof fn lemma_strobes_concat(a: Seq<LineOp>, b: Seq<LineOp>, line: u8)
    ensures
        strobes(a + b, line) == strobes(a, line) + strobes(b, line),
    decreases b.len(),
{
    if b.len() == 0 {
        assert(a + b =~= a);
    } else {
        lemma_strobes_concat(a, b.drop_last(), line);
        assert((a + b).drop_last() =~= a + b.drop_last());
    }
}

/// One operation drives the line low once, or not at all.
proof fn lemma_strobes_one(op: LineOp, line: u8)
    ensures
        strobes(seq![op], line) == if op == LineOp::Drive(line, false) {
            1nat
        } else {
            0nat
        },
{
    let one = seq![op];
    assert(one.drop_last() =~= Seq::<LineOp>::empty());
    assert(strobes(Seq::<LineOp>::empty(), line) == 0);
    assert(one.last() == op);
    assert(one.len() == 1);
}

proof fn lemma_strobes_samples(pins: Seq<PinModel>, n: nat, line: u8)
    ensures
        strobes(samples(pins, n), line) == 0,
    decreases n,
{
    if n > 0 {
        lemma_strobes_samples(pins, (n - 1) as nat, line);
        assert(samples(pins, n).drop_last() =~= samples(pins, (n - 1) as nat));
    }
}

proof fn lemma_strobes_switch(pin: PinModel, line: u8)
    ensures
        strobes(input_switch(pin), line) == 0,
        strobes(output_switch(pin), line) == 0,
{
    if pin.input is Some {
        lemma_strobes_one(input_switch(pin)[0], line);
        assert(input_switch(pin) =~= seq![input_switch(pin)[0]]);
    }
    if pin.output is Some {
        lemma_strobes_one(output_switch(pin)[0], line);
        assert(output_switch(pin) =~= seq![output_switch(pin)[0]]);
    }
}

proof fn lemma_strobes_input_switches(pins: Seq<PinModel>, n: nat, line: u8)
    ensures
        strobes(input_switches(pins, n), line) == 0,
    decreases n,
{
    if n > 0 {
        lemma_strobes_input_switches(pins, (n - 1) as nat, line);
        lemma_strobes_switch(pins[n - 1], line);
        lemma_strobes_concat(input_switches(pins, (n - 1) as nat), input_switch(pins[n - 1]), line);
    }
}

/// The start of a read transaction drives only the chip select low.
proof fn lemma_strobes_read_opening(bus: BusModel, line: u8)
    requires
        line != bus.cs.line,
    ensures
        strobes(bus.read_opening(), line) == 0,
{
    let inputs = input_switches(bus.data, bus.data.len());
    let cs = output_switch(bus.cs);
    let rdx = output_switch(bus.rdx);
    let dcx = output_switch(bus.dcx);
    let wrx = output_switch(bus.wrx);
    lemma_strobes_input_switches(bus.data, bus.data.len(), line);
    lemma_strobes_switch(bus.cs, line);
    lemma_strobes_switch(bus.rdx, line);
    lemma_strobes_switch(bus.dcx, line);
    lemma_strobes_switch(bus.wrx, line);
    lemma_strobes_concat(cs, rdx, line);
    lemma_strobes_concat(cs + rdx, dcx, line);
    lemma_strobes_concat(cs + rdx + dcx, wrx, line);
    lemma_strobes_concat(inputs, bus.control_outputs(), line);
    let a = LineOp::Drive(bus.rdx.line, true);
    let b = LineOp::Drive(bus.wrx.line, true);
    let c = LineOp::Drive(bus.cs.line, false);
    let d = LineOp::Drive(bus.dcx.line, true);
    lemma_strobes_one(a, line);
    lemma_strobes_one(b, line);
    lemma_strobes_one(c, line);
    lemma_strobes_one(d, line);
    lemma_strobes_concat(seq![a], seq![b], line);
    lemma_strobes_concat(seq![a] + seq![b], seq![c], line);
    lemma_strobes_concat(seq![a] + seq![b] + seq![c], seq![d], line);
    assert(bus.select(true) =~= seq![a] + seq![b] + seq![c] + seq![d]);
    lemma_strobes_concat(inputs + bus.control_outputs(), bus.select(true), line);
}

/// One pulse drives the read strobe low once.
proof fn lemma_strobes_read_strobe(bus: BusModel)
    ensures
        strobes(bus.read_strobe(), bus.rdx.line) == 1,
{
    let line = bus.rdx.line;
    let low = seq![LineOp::Drive(line, false)];
    let high = seq![LineOp::Drive(line, true)];
    lemma_strobes_one(LineOp::Drive(line, false), line);
    lemma_strobes_one(LineOp::Drive(line, true), line);
    if bus.readable() {
        let read = samples(bus.data, bus.data.len());
        lemma_strobes_samples(bus.data, bus.data.len(), line);
        lemma_strobes_concat(low, read, line);
        lemma_strobes_concat(low + read, high, line);
    } else {
        let read = samples(bus.data, readable_prefix(bus.data, bus.data.len()));
        lemma_strobes_samples(bus.data, readable_prefix(bus.data, bus.data.len()), line);
        lemma_strobes_concat(low, read, line);
    }
}

proof fn lemma_strobes_read_strobes(bus: BusModel, n: nat)
    ensures
        strobes(bus.read_strobes(n), bus.rdx.line) == n,
    decreases n,
{
    if n > 0 {
        lemma_strobes_read_strobes(bus, (n - 1) as nat);
        lemma_strobes_read_strobe(bus);
        lemma_strobes_concat(bus.read_strobes((n - 1) as nat), bus.read_strobe(), bus.rdx.line);
    }
}

proof fn lemma_read_legs_more(bus: BusModel, answers: Seq<bool>, n: nat)
    requires
        n <= answers.len(),
        forall|i: int| 0 <= i < n ==> answers[i],
    ensures
        read_legs(bus, answers, n) == bus.read_opening() + bus.read_strobes(n + 1),
    decreases n,
{
    if n == 0 {
        assert(bus.read_strobes(0) =~= Seq::empty());
        assert(bus.read_strobes(1) =~= bus.read_strobe());
    } else {
        lemma_read_legs_more(bus, answers, (n - 1) as nat);
        assert(read_legs(bus, answers, n) =~= bus.read_opening() + bus.read_strobes(n + 1));
    }
}

/// A consumer that says "more" to all words but the last, and "stop" to the
/// last of `k`, gets a read transaction of exactly `k` pulses of the read
/// strobe: the word that it stops at is the last one taken.
pub proof fn lemma_read_stops(bus: BusModel, answers: Seq<bool>)
    requires
        answers.len() >= 1,
        forall|i: int| 0 <= i < answers.len() - 1 ==> answers[i],
        !answers[answers.len() - 1],
        bus.rdx.line != bus.cs.line,
        bus.rdx.line != bus.dcx.line,
    ensures
        read_legs(bus, answers, answers.len()) == bus.read_script(answers.len()),
        strobes(read_legs(bus, answers, answers.len()), bus.rdx.line) == answers.len(),
{
    let k = answers.len();
    let line = bus.rdx.line;
    lemma_read_legs_more(bus, answers, (k - 1) as nat);
    assert(read_legs(bus, answers, k) =~= bus.read_script(k));
    lemma_strobes_read_opening(bus, line);
    lemma_strobes_read_strobes(bus, k);
    let a = LineOp::Drive(bus.dcx.line, false);
    let b = LineOp::Drive(bus.cs.line, true);
    lemma_strobes_one(a, line);
    lemma_strobes_one(b, line);
    lemma_strobes_concat(seq![a], seq![b], line);
    assert(bus.read_closing() =~= seq![a] + seq![b]);
    lemma_strobes_concat(bus.read_opening(), bus.read_strobes(k), line);
    lemma_strobes_concat(bus.read_opening() + bus.read_strobes(k), bus.read_closing(), line);
}

/// The error that stands for a fault at the given operation: a line that
/// could not be read, or not be made an input, is a read error; anything
/// else is a write error.
pub open spec fn fault_of(op: LineOp) -> DisplayError {
    match op {
        LineOp::Sample(_) => DisplayError::BusReadError,
        LineOp::MakeInput(_, _) => DisplayError::BusReadError,
        _ => DisplayError::BusWriteError,
    }
}

/// The error to report when the hardware failed at `op`. Nothing that was
/// planned after `op` may be carried out then, and the lines stay as they
/// are.
pub fn fault(op: &LineOp) -> (error: DisplayError)
    ensures
        error == fault_of(*op),
{
    match op {
        LineOp::Sample(_) => DisplayError::BusReadError,
        LineOp::MakeInput(_, _) => DisplayError::BusReadError,
        _ => DisplayError::BusWriteError,
    }
}

/// A bus that a display driver can write to and read from.
pub trait ReadWriteInterface {
    /// The lines of the bus.
    spec fn model(&self) -> BusModel;

    /// Whether the bus is set for reading: what the first leg of a read
    /// transaction brings about, and what the later legs rely on.
    spec fn listening(&self) -> bool;

    /// The number of data lines.
    fn width(&self) -> (width: BusWidth)
        ensures
            width.lines() == self.model().data.len(),
    ;

    /// Plans one write transaction that carries `words` in the given mode.
    /// Of each word the lines carry as many low bits as the bus is wide.
    fn write_stream(&mut self, wire: &mut Wire, mode: WriteMode, words: &[u32]) -> (r: Result<
        (),
        DisplayError,
    >)
        ensures
            r is Ok,
            final(self).model() == old(self).model(),
            final(wire)@ == old(wire)@ + old(self).model().write_script(mode, words@),
    ;

    /// Plans one leg of a read transaction; `answer` is what the consumer of
    /// the samples said to the word it was handed last, `None` before the
    /// first word. A leg that follows an answer belongs to the transaction
    /// that the first leg has opened, with no write in between.
    fn read_stream(&mut self, wire: &mut Wire, answer: Option<bool>) -> (r: Result<
        (),
        DisplayError,
    >)
        requires
            answer is Some ==> old(self).listening(),
        ensures
            final(self).model() == old(self).model(),
            final(self).listening(),
            final(wire)@ == old(wire)@ + old(self).model().read_leg(answer),
            r is Ok <==> (answer == Some(false) || old(self).model().readable()),
            r is Err ==> r == Err::<(), DisplayError>(DisplayError::BusReadError),
    ;
}

/// The number of words that a read transaction for `count` words takes: a
/// transaction takes its first word before anyone is asked.
pub open spec fn pulses(count: nat) -> nat {
    if count == 0 {
        1
    } else {
        count
    }
}

/// Plans one read transaction that takes `count` words. Where a data line of
/// the bus cannot be read, the plan ends in the first pulse, before that
/// line.
pub fn read<B: ReadWriteInterface>(bus: &mut B, wire: &mut Wire, count: usize) -> (r: Result<
    (),
    DisplayError,
>)
    ensures
        final(bus).model() == old(bus).model(),
        r is Ok <==> old(bus).model().readable(),
        r is Err ==> r == Err::<(), DisplayError>(DisplayError::BusReadError),
        final(wire)@ == old(wire)@ + if old(bus).model().readable() {
            old(bus).model().read_script(pulses(count as nat))
        } else {
            old(bus).model().read_leg(None)
        },
{
    let ghost before = wire@;
    let ghost model = bus.model();
    bus.read_stream(wire, None)?;
    assert(wire@ =~= before + model.read_opening() + model.read_strobes(1)) by {
        assert(model.read_strobes(0) =~= Seq::empty());
        assert(model.read_strobes(1) =~= model.read_strobe());
    }
    let mut taken: usize = 1;
    while taken < count
        invariant
            taken == 1 || taken <= count,
            taken >= 1,
            model == bus.model(),
            model == old(bus).model(),
            before == old(wire)@,
            model.readable(),
            bus.listening(),
            wire@ == before + model.read_opening() + model.read_strobes(taken as nat),
        decreases count - taken,
    {
        bus.read_stream(wire, Some(true))?;
        taken += 1;
        assert(wire@ =~= before + model.read_opening() + model.read_strobes(taken as nat));
    }
    let r = bus.read_stream(wire, Some(false));
    assert(wire@ =~= before + model.read_script(pulses(count as nat)));
    r
}

/// Setting bit `i` of a word that has nothing at or above it leaves the bits
/// below as they are.
proof fn lemma_bit_below(word: u32, i: u32, j: u32)
    by (bit_vector)
    requires
        j < i < 32,
        word >> i == 0,
    ensures
        ((word | (1u32 << i)) >> j) & 1 == (word >> j) & 1,
{
}

/// Setting bit `i` of a word that has nothing at or above it sets that bit
/// and nothing above it.
proof fn lemma_bit_at(word: u32, i: u32)
    by (bit_vector)
    requires
        i < 32,
        word >> i == 0,
    ensures
        ((word | (1u32 << i)) >> i) & 1 == 1,
        (word >> i) & 1 == 0,
        i < 31 ==> (word | (1u32 << i)) >> ((i + 1) as u32) == 0,
        i < 31 ==> word >> ((i + 1) as u32) == 0,
{
}

/// The word that was on the data lines when they were read: bit `i` is the
/// level of line `i`, and the bits above the lines are zero. `None` for more
/// than 32 lines.
pub fn word_of_levels(sampled: &[bool]) -> (word: Option<u32>)
    ensures
        word is Some <==> sampled@.len() <= 32,
        word is Some ==> forall|i: int|
            0 <= i < sampled@.len() ==> level(word->Some_0, i as nat) == sampled@[i],
        word is Some && sampled@.len() < 32 ==> word->Some_0 >> (sampled@.len() as u32) == 0,
{
    if sampled.len() > 32 {
        return None;
    }
    let mut word: u32 = 0;
    let mut i: usize = 0;
    assert(0u32 >> 0u32 == 0) by (bit_vector);
    while i < sampled.len()
        invariant
            i <= sampled.len() <= 32,
            forall|j: int| 0 <= j < i ==> level(word, j as nat) == sampled@[j],
            i < 32 ==> word >> (i as u32) == 0,
        decreases sampled.len() - i,
    {
        let ghost before = word;
        proof {
            lemma_bit_at(before, i as u32);
        }
        if sampled[i] {
            word |= 1u32 << (i as u32);
            assert forall|j: int| 0 <= j < i implies level(word, j as nat) == sampled@[j] by {
                lemma_bit_below(before, i as u32, j as u32);
                assert(level(before, j as nat) == sampled@[j]);
            }
        }
        i += 1;
    }
    Some(word)
}

} // verus!
