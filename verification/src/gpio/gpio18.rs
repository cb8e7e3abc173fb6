use crate::gpio::Lines;
use crate::interface::{BusModel, BusWidth, DisplayError, ReadWriteInterface, WriteMode};
use crate::io::{IoPin, Wire};
use vstd::prelude::*;

verus! {

/// A parallel bus with eighteen data lines, one for each bit of an RGB666
/// pixel.
pub struct GPIO18ParallelInterface<DB: IoPin, CS: IoPin, DCX: IoPin, RDX: IoPin, WRX: IoPin> {
    lines: Lines<DB, CS, DCX, RDX, WRX, 18>,
}

impl<DB: IoPin, CS: IoPin, DCX: IoPin, RDX: IoPin, WRX: IoPin> GPIO18ParallelInterface<
    DB,
    CS,
    DCX,
    RDX,
    WRX,
> {
    /// Takes the pins of the bus, `db0` for the lowest bit, and plans what
    /// puts the bus at rest: the control lines as outputs, all high.
    pub fn new(
        wire: &mut Wire,
        db0: DB,
        db1: DB,
        db2: DB,
        db3: DB,
        db4: DB,
        db5: DB,
        db6: DB,
        db7: DB,
        db8: DB,
        db9: DB,
        db10: DB,
        db11: DB,
        db12: DB,
        db13: DB,
        db14: DB,
        db15: DB,
        db16: DB,
        db17: DB,
        cs: CS,
        dcx: DCX,
        rdx: RDX,
        wrx: WRX,
    ) -> (r: Result<GPIO18ParallelInterface<DB, CS, DCX, RDX, WRX>, DisplayError>)
        ensures
            r is Ok,
            r->Ok_0.model() == (BusModel {
                data: seq![
                    db0.model(),
                    db1.model(),
                    db2.model(),
                    db3.model(),
                    db4.model(),
                    db5.model(),
                    db6.model(),
                    db7.model(),
                    db8.model(),
                    db9.model(),
                    db10.model(),
                    db11.model(),
                    db12.model(),
                    db13.model(),
                    db14.model(),
                    db15.model(),
                    db16.model(),
                    db17.model(),
                ],
                cs: cs.model(),
                dcx: dcx.model(),
                rdx: rdx.model(),
                wrx: wrx.model(),
            }),
            final(wire)@ == old(wire)@ + r->Ok_0.model().idle(),
    {
        let data: [DB; 18] = [
            db0,
            db1,
            db2,
            db3,
            db4,
            db5,
            db6,
            db7,
            db8,
            db9,
            db10,
            db11,
            db12,
            db13,
            db14,
            db15,
            db16,
            db17,
        ];
        let mut lines = Lines { data: data, cs: cs, dcx: dcx, rdx: rdx, wrx: wrx };
        lines.idle(wire);
        assert(lines.model().data =~= seq![
            db0.model(),
            db1.model(),
            db2.model(),
            db3.model(),
            db4.model(),
            db5.model(),
            db6.model(),
            db7.model(),
            db8.model(),
            db9.model(),
            db10.model(),
            db11.model(),
            db12.model(),
            db13.model(),
            db14.model(),
            db15.model(),
            db16.model(),
            db17.model(),
        ]);
        Ok(GPIO18ParallelInterface { lines: lines })
    }
}

impl<DB: IoPin, CS: IoPin, DCX: IoPin, RDX: IoPin, WRX: IoPin> ReadWriteInterface
    for GPIO18ParallelInterface<DB, CS, DCX, RDX, WRX> {
    closed spec fn model(&self) -> BusModel {
        self.lines.model()
    }

    closed spec fn listening(&self) -> bool {
        self.lines.listening()
    }

    fn width(&self) -> (width: BusWidth)
        ensures
            width == BusWidth::Bits18,
    {
        BusWidth::Bits18
    }

    fn write_stream(&mut self, wire: &mut Wire, mode: WriteMode, words: &[u32]) -> (r: Result<
        (),
        DisplayError,
    >) {
        self.lines.write_stream(wire, mode, words);
        Ok(())
    }

    fn read_stream(&mut self, wire: &mut Wire, answer: Option<bool>) -> (r: Result<
        (),
        DisplayError,
    >) {
        self.lines.read_stream(wire, answer)
    }
}

} // verus!
