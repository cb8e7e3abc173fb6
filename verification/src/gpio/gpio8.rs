use crate::gpio::Lines;
use crate::interface::{BusModel, BusWidth, DisplayError, ReadWriteInterface, WriteMode};
use crate::io::{IoPin, Wire};
use vstd::prelude::*;

verus! {

/// A parallel bus with eight data lines.
pub struct GPIO8ParallelInterface<DB: IoPin, CS: IoPin, DCX: IoPin, RDX: IoPin, WRX: IoPin> {
    lines: Lines<DB, CS, DCX, RDX, WRX, 8>,
}

impl<DB: IoPin, CS: IoPin, DCX: IoPin, RDX: IoPin, WRX: IoPin> GPIO8ParallelInterface<
    DB,
    CS,
    DCX,
    RDX,
    WRX,
> {
    /// Takes the pins of the bus, `db0` for the lowest bit, and plans what
    /// puts the bus at rest: the control lines as outputs, all high.
    pub fn new(
        wire: &mut Wire,
        db0: DB,
        db1: DB,
        db2: DB,
        db3: DB,
        db4: DB,
        db5: DB,
        db6: DB,
        db7: DB,
        cs: CS,
        dcx: DCX,
        rdx: RDX,
        wrx: WRX,
    ) -> (r: Result<GPIO8ParallelInterface<DB, CS, DCX, RDX, WRX>, DisplayError>)
        ensures
            r is Ok,
            r->Ok_0.model() == (BusModel {
                data: seq![
                    db0.model(),
                    db1.model(),
                    db2.model(),
                    db3.model(),
                    db4.model(),
                    db5.model(),
                    db6.model(),
                    db7.model(),
                ],
                cs: cs.model(),
                dcx: dcx.model(),
                rdx: rdx.model(),
                wrx: wrx.model(),
            }),
            final(wire)@ == old(wire)@ + r->Ok_0.model().idle(),
    {
        let data: [DB; 8] = [db0, db1, db2, db3, db4, db5, db6, db7];
        let mut lines = Lines { data: data, cs: cs, dcx: dcx, rdx: rdx, wrx: wrx };
        lines.idle(wire);
        assert(lines.model().data =~= seq![
            db0.model(),
            db1.model(),
            db2.model(),
            db3.model(),
            db4.model(),
            db5.model(),
            db6.model(),
            db7.model(),
        ]);
        Ok(GPIO8ParallelInterface { lines: lines })
    }
}

impl<DB: IoPin, CS: IoPin, DCX: IoPin, RDX: IoPin, WRX: IoPin> ReadWriteInterface
    for GPIO8ParallelInterface<DB, CS, DCX, RDX, WRX> {
    closed spec fn model(&self) -> BusModel {
        self.lines.model()
    }

    closed spec fn listening(&self) -> bool {
        self.lines.listening()
    }

    fn width(&self) -> (width: BusWidth)
        ensures
            width == BusWidth::Bits8,
    {
        BusWidth::Bits8
    }

    fn write_stream(&mut self, wire: &mut Wire, mode: WriteMode, words: &[u32]) -> (r: Result<
        (),
        DisplayError,
    >) {
        self.lines.write_stream(wire, mode, words);
        Ok(())
    }

    fn read_stream(&mut self, wire: &mut Wire, answer: Option<bool>) -> (r: Result<
        (),
        DisplayError,
    >) {
        self.lines.read_stream(wire, answer)
    }
}

} // verus!
