//! A driver core for the ILI9486 LCD controller.
//!
//! The crate decides what has to happen on the wires of the display bus, and
//! in which order; it never touches a pin itself. Every operation appends the
//! line operations it stands for to a [`io::Wire`], and whoever owns the
//! hardware carries them out one by one.
use crate::color::{
    carries, lemma_single_stream, lemma_words_of_concat, pixel_runs, repeat, single_run, words_of,
    PixelFormat, PixelWriter, RGBPixel,
};
use crate::interface::{
    lemma_write_runs_concat, pulses, read, BusModel, DisplayError, ReadWriteInterface, WriteMode,
};
use crate::io::{output_switch, IoPin, LineOp, PinModel, Wire};
use vstd::prelude::*;

pub mod color;
pub mod gpio;
pub mod interface;
pub mod io;
pub mod run;
pub mod surface;

verus! {

/// Columns of the panel.
pub const PANEL_WIDTH: u32 = 320;

/// Rows of the panel.
pub const PANEL_HEIGHT: u32 = 480;

/// How long the reset line is held low, in microseconds.
pub const RESET_PULSE_US: u32 = 20;

/// How long the controller is left alone after a reset, in microseconds: the
/// 120 ms that its data sheet asks for.
pub const RESET_SETTLE_US: u32 = 120_000;

/// The commands of the controller that this driver knows.
#[derive(Clone, Copy, Debug, PartialEq, Eq, Structural)]
pub enum Command {
    Nop,
    SoftwareReset,
    SleepOut,
    NormalDisplayMode,
    DisplayInversionOff,
    DisplayOn,
    ColumnAddressSet,
    PageAddressSet,
    MemoryWrite,
    MemoryAccessControl,
    IdleModeOff,
    InterfacePixelFormat,
}

impl Command {
    /// The opcode of the command.
    pub open spec fn code(self) -> u8 {
        match self {
            Command::Nop => 0x00,
            Command::SoftwareReset => 0x01,
            Command::SleepOut => 0x11,
            Command::NormalDisplayMode => 0x13,
            Command::DisplayInversionOff => 0x20,
            Command::DisplayOn => 0x29,
            Command::ColumnAddressSet => 0x2a,
            Command::PageAddressSet => 0x2b,
            Command::MemoryWrite => 0x2c,
            Command::MemoryAccessControl => 0x36,
            Command::IdleModeOff => 0x38,
            Command::InterfacePixelFormat => 0x3a,
        }
    }

    pub fn opcode(&self) -> (opcode: u8)
        ensures
            opcode == self.code(),
    {
        match self {
            Command::Nop => 0x00,
            Command::SoftwareReset => 0x01,
            Command::SleepOut => 0x11,
            Command::NormalDisplayMode => 0x13,
            Command::DisplayInversionOff => 0x20,
            Command::DisplayOn => 0x29,
            Command::ColumnAddressSet => 0x2a,
            Command::PageAddressSet => 0x2b,
            Command::MemoryWrite => 0x2c,
            Command::MemoryAccessControl => 0x36,
            Command::IdleModeOff => 0x38,
            Command::InterfacePixelFormat => 0x3a,
        }
    }
}

/// The four parameter bytes of an address command: start and end, each high
/// byte first.
pub open spec fn address_words(start: u16, end: u16) -> Seq<u32> {
    seq![(start >> 8) as u32, (start & 0xff) as u32, (end >> 8) as u32, (end & 0xff) as u32]
}

/// An opcode alone: one write transaction in command mode.
pub open spec fn opcode_script(bus: BusModel, opcode: u8) -> Seq<LineOp> {
    bus.write_script(WriteMode::Command, seq![opcode as u32])
}

/// An opcode and its parameters: a write transaction in command mode, then
/// one in data mode.
pub open spec fn command_script(bus: BusModel, opcode: u8, data: Seq<u32>) -> Seq<LineOp> {
    opcode_script(bus, opcode) + bus.write_script(WriteMode::Data, data)
}

/// The address window of columns `x0..=x1` and pages `y0..=y1`.
pub open spec fn window_script(bus: BusModel, x0: u16, x1: u16, y0: u16, y1: u16) -> Seq<LineOp> {
    command_script(bus, Command::ColumnAddressSet.code(), address_words(x0, x1)) + command_script(
        bus,
        Command::PageAddressSet.code(),
        address_words(y0, y1),
    )
}

/// The reset pulse: the line low for the length of the pulse, then high, and
/// the time for the controller to settle.
pub open spec fn reset_script(rst: PinModel) -> Seq<LineOp> {
    output_switch(rst) + seq![
        LineOp::Drive(rst.line, false),
        LineOp::DelayUs(RESET_PULSE_US),
        LineOp::Drive(rst.line, true),
        LineOp::DelayUs(RESET_SETTLE_US),
    ]
}

/// The runs of `k` pairs of the same pixel.
pub open spec fn pair_runs(lines: nat, format: PixelFormat, pixel: RGBPixel, k: nat) -> Seq<
    Seq<u32>,
>
    decreases k,
{
    if k == 0 {
        Seq::empty()
    } else {
        pair_runs(lines, format, pixel, (k - 1) as nat) + pixel_runs(
            lines,
            format,
            pixel,
            Some(pixel),
        )
    }
}

/// The runs that fill `n` pixels with one colour: two at a time, and the last
/// of an odd number alone.
pub open spec fn fill_runs(lines: nat, format: PixelFormat, pixel: RGBPixel, n: nat) -> Seq<
    Seq<u32>,
> {
    pair_runs(lines, format, pixel, n / 2) + if n % 2 == 1 {
        pixel_runs(lines, format, pixel, None)
    } else {
        Seq::empty()
    }
}

/// `n` blocks and one more are `n + 1` blocks, and two more `n + 2`.
proof fn lemma_repeat_two(block: Seq<u32>, n: nat)
    ensures
        repeat(block, n) + (block + block) == repeat(block, n + 2),
        repeat(block, n) + block == repeat(block, n + 1),
{
    assert(repeat(block, n + 2) =~= repeat(block, n + 1) + block);
    assert(repeat(block, n) + (block + block) =~= (repeat(block, n) + block) + block);
}

/// Two neighbours of the same colour carry the words of one pixel twice, on
/// every bus but the one that packs two RGB666 pixels into three words.
proof fn lemma_pair_stream(lines: nat, format: PixelFormat, pixel: RGBPixel)
    requires
        !(lines == 16 && format == PixelFormat::Rgb666),
    ensures
        words_of(
            pixel_runs(lines, format, pixel, Some(pixel)),
            pixel_runs(lines, format, pixel, Some(pixel)).len(),
        ) == single_run(lines, format, pixel) + single_run(lines, format, pixel),
{
    let runs = pixel_runs(lines, format, pixel, Some(pixel));
    assert(words_of(runs, 0) =~= Seq::<u32>::empty());
    assert(words_of(runs, 1) =~= runs[0]);
    if lines == 8 {
        assert(words_of(runs, 2) =~= runs[0] + runs[1]);
    }
}

proof fn lemma_pairs_stream(lines: nat, format: PixelFormat, pixel: RGBPixel, k: nat)
    requires
        !(lines == 16 && format == PixelFormat::Rgb666),
    ensures
        words_of(
            pair_runs(lines, format, pixel, k),
            pair_runs(lines, format, pixel, k).len(),
        ) == repeat(single_run(lines, format, pixel), 2 * k),
    decreases k,
{
    if k > 0 {
        let done = pair_runs(lines, format, pixel, (k - 1) as nat);
        let pair = pixel_runs(lines, format, pixel, Some(pixel));
        lemma_pairs_stream(lines, format, pixel, (k - 1) as nat);
        lemma_pair_stream(lines, format, pixel);
        lemma_words_of_concat(done, pair, pair.len());
        lemma_repeat_two(single_run(lines, format, pixel), (2 * (k - 1)) as nat);
    }
}

/// Filling `n` pixels carries, word for word, what writing the pixel alone
/// `n` times carries: not one pixel more and not one less. This holds on
/// every bus but the one that packs two RGB666 pixels into three words.
pub proof fn lemma_fill_stream(lines: nat, format: PixelFormat, pixel: RGBPixel, n: nat)
    requires
        !(lines == 16 && format == PixelFormat::Rgb666),
    ensures
        words_of(fill_runs(lines, format, pixel, n), fill_runs(lines, format, pixel, n).len())
            == repeat(words_of(pixel_runs(lines, format, pixel, None), 1), n),
{
    let block = single_run(lines, format, pixel);
    let pairs = pair_runs(lines, format, pixel, n / 2);
    lemma_single_stream(lines, format, pixel);
    lemma_pairs_stream(lines, format, pixel, n / 2);
    if n % 2 == 1 {
        let last = pixel_runs(lines, format, pixel, None);
        lemma_words_of_concat(pairs, last, 1);
        lemma_repeat_two(block, (2 * (n / 2)) as nat);
    } else {
        assert(pairs + Seq::<Seq<u32>>::empty() =~= pairs);
    }
}

proof fn lemma_packed_pairs_len(pixel: RGBPixel, k: nat)
    ensures
        words_of(
            pair_runs(16, PixelFormat::Rgb666, pixel, k),
            pair_runs(16, PixelFormat::Rgb666, pixel, k).len(),
        ).len() == 3 * k,
    decreases k,
{
    if k > 0 {
        let done = pair_runs(16, PixelFormat::Rgb666, pixel, (k - 1) as nat);
        let pair = pixel_runs(16, PixelFormat::Rgb666, pixel, Some(pixel));
        lemma_packed_pairs_len(pixel, (k - 1) as nat);
        lemma_words_of_concat(done, pair, 1);
        assert(words_of(pair, 0) =~= Seq::<u32>::empty());
        assert(words_of(pair, 1) =~= pair[0]);
    }
}

/// On the bus that packs two RGB666 pixels into three words, filling `n`
/// pixels carries three words for every two pixels, and two words for the
/// last of an odd number.
pub proof fn lemma_fill_packed_len(pixel: RGBPixel, n: nat)
    ensures
        words_of(
            fill_runs(16, PixelFormat::Rgb666, pixel, n),
            fill_runs(16, PixelFormat::Rgb666, pixel, n).len(),
        ).len() == 3 * (n / 2) + 2 * (n % 2),
{
    let pairs = pair_runs(16, PixelFormat::Rgb666, pixel, n / 2);
    lemma_packed_pairs_len(pixel, n / 2);
    if n % 2 == 1 {
        let last = pixel_runs(16, PixelFormat::Rgb666, pixel, None);
        lemma_words_of_concat(pairs, last, 1);
        lemma_single_stream(16, PixelFormat::Rgb666, pixel);
    } else {
        assert(pairs + Seq::<Seq<u32>>::empty() =~= pairs);
    }
}

/// The memory write command.
pub open spec fn memory_write(bus: BusModel) -> Seq<LineOp> {
    opcode_script(bus, Command::MemoryWrite.code())
}

/// One pixel at `(x, y)`: a window of that pixel alone, the memory write
/// command, and the pixel, as far as the bus can carry the format.
pub open spec fn pixel_script(bus: BusModel, format: PixelFormat, x: u16, y: u16, pixel: RGBPixel)
    -> Seq<LineOp> {
    window_script(bus, x, x, y, y) + memory_write(bus) + if carries(bus.data.len(), format) {
        bus.write_runs(pixel_runs(bus.data.len(), format, pixel, None), 1)
    } else {
        Seq::empty()
    }
}

/// A filled rectangle: its address window, the memory write command, given
/// twice, and one pixel for each of its `width * height` places, as far as
/// the bus can carry the format.
#[verifier::opaque]
pub open spec fn rect_script(
    bus: BusModel,
    format: PixelFormat,
    x: u16,
    y: u16,
    width: u32,
    height: u32,
    pixel: RGBPixel,
) -> Seq<LineOp> {
    window_script(bus, x, (x + width - 1) as u16, y, (y + height - 1) as u16) + memory_write(bus)
        + memory_write(bus) + if carries(bus.data.len(), format) {
        bus.write_runs(
            fill_runs(bus.data.len(), format, pixel, (width * height) as nat),
            fill_runs(bus.data.len(), format, pixel, (width * height) as nat).len(),
        )
    } else {
        Seq::empty()
    }
}

/// Whether a rectangle lies within the coordinates that the controller can
/// be told.
pub open spec fn addressable(x: u16, y: u16, width: u32, height: u32) -> bool {
    &&& width >= 1
    &&& height >= 1
    &&& x + width - 1 <= 0xffff
    &&& y + height - 1 <= 0xffff
}

/// A driver for the ILI9486 LCD controller.
pub struct ILI9486<RW: ReadWriteInterface> {
    rw_interface: RW,
    color_mode: PixelFormat,
}

/// The commands of the controller as operations of the driver.
pub trait Commands {
    /// The lines of the bus that the commands go over.
    spec fn lines(&self) -> BusModel;

    /// The pixel format that the controller was told last.
    spec fn format(&self) -> PixelFormat;

    /// Tells the controller the pixel format, and from then on encodes
    /// pixels in it.
    fn set_interface_pixel_format(&mut self, wire: &mut Wire, pixel_format: &PixelFormat) -> (r:
        Result<(), DisplayError>)
        ensures
            r is Ok,
            final(self).lines() == old(self).lines(),
            final(self).format() == *pixel_format,
            final(wire)@ == old(wire)@ + command_script(
                old(self).lines(),
                Command::InterfacePixelFormat.code(),
                seq![pixel_format.value() as u32],
            ),
    ;

    /// Fills the whole panel with black.
    fn clear_screen(&mut self, wire: &mut Wire) -> (r: Result<(), DisplayError>)
        ensures
            final(self).lines() == old(self).lines(),
            final(self).format() == old(self).format(),
            r is Ok <==> carries(old(self).lines().data.len(), old(self).format()),
            r is Err ==> r == Err::<(), DisplayError>(DisplayError::DataFormatNotImplemented),
            final(wire)@ == old(wire)@ + rect_script(
                old(self).lines(),
                old(self).format(),
                0,
                0,
                PANEL_WIDTH,
                PANEL_HEIGHT,
                (0, 0, 0),
            ),
    ;

    /// Tells the controller the first and the last column of the address
    /// window.
    fn column_address_set(&mut self, wire: &mut Wire, start: u16, end: u16) -> (r: Result<
        (),
        DisplayError,
    >)
        ensures
            r is Ok,
            final(self).lines() == old(self).lines(),
            final(self).format() == old(self).format(),
            final(wire)@ == old(wire)@ + command_script(
                old(self).lines(),
                Command::ColumnAddressSet.code(),
                address_words(start, end),
            ),
    ;

    /// Tells the controller the first and the last page of the address
    /// window.
    fn page_address_set(&mut self, wire: &mut Wire, start: u16, end: u16) -> (r: Result<
        (),
        DisplayError,
    >)
        ensures
            r is Ok,
            final(self).lines() == old(self).lines(),
            final(self).format() == old(self).format(),
            final(wire)@ == old(wire)@ + command_script(
                old(self).lines(),
                Command::PageAddressSet.code(),
                address_words(start, end),
            ),
    ;
}

impl<RW: ReadWriteInterface> Commands for ILI9486<RW> {
    open spec fn lines(&self) -> BusModel {
        self.bus()
    }

    open spec fn format(&self) -> PixelFormat {
        self.color_mode()
    }

    fn set_interface_pixel_format(&mut self, wire: &mut Wire, pixel_format: &PixelFormat) -> (r:
        Result<(), DisplayError>) {
        let data: [u32; 1] = [pixel_format.code() as u32];
        assert(data@ =~= seq![pixel_format.value() as u32]);
        self.write_command(wire, Command::InterfacePixelFormat.opcode(), &data)?;
        self.color_mode = *pixel_format;
        Ok(())
    }

    fn column_address_set(&mut self, wire: &mut Wire, start: u16, end: u16) -> (r: Result<
        (),
        DisplayError,
    >) {
        let data: [u32; 4] = [
            (start >> 8) as u32,
            (start & 0xff) as u32,
            (end >> 8) as u32,
            (end & 0xff) as u32,
        ];
        assert(data@ =~= address_words(start, end));
        self.write_command(wire, Command::ColumnAddressSet.opcode(), &data)
    }

    fn page_address_set(&mut self, wire: &mut Wire, start: u16, end: u16) -> (r: Result<
        (),
        DisplayError,
    >) {
        let data: [u32; 4] = [
            (start >> 8) as u32,
            (start & 0xff) as u32,
            (end >> 8) as u32,
            (end & 0xff) as u32,
        ];
        assert(data@ =~= address_words(start, end));
        self.write_command(wire, Command::PageAddressSet.opcode(), &data)
    }

    fn clear_screen(&mut self, wire: &mut Wire) -> (r: Result<(), DisplayError>) {
        self._draw_rect(wire, 0, 0, PANEL_WIDTH, PANEL_HEIGHT, 0, 0, 0)
    }
}

impl<RW: ReadWriteInterface> ILI9486<RW> {
    /// The bus that the driver owns.
    pub closed spec fn interface(self) -> RW {
        self.rw_interface
    }

    /// The lines of the bus that the driver owns.
    pub open spec fn bus(self) -> BusModel {
        self.interface().model()
    }

    /// The pixel format that the controller was told last.
    pub closed spec fn color_mode(self) -> PixelFormat {
        self.color_mode
    }

    /// Resets the controller by a pulse on `rst` and tells it the pixel
    /// format.
    pub fn new<RST: IoPin>(wire: &mut Wire, color_mode: PixelFormat, rw_interface: RW, rst: RST)
        -> (r: Result<ILI9486<RW>, DisplayError>)
        ensures
            r is Ok,
            r->Ok_0.bus() == rw_interface.model(),
            r->Ok_0.color_mode() == color_mode,
            final(wire)@ == old(wire)@ + reset_script(rst.model()) + command_script(
                rw_interface.model(),
                Command::InterfacePixelFormat.code(),
                seq![color_mode.value() as u32],
            ),
    {
        let mut reset = rst;
        reset.into_output(wire);
        reset.set_low(wire);
        wire.push(LineOp::DelayUs(RESET_PULSE_US));
        reset.set_high(wire);
        wire.push(LineOp::DelayUs(RESET_SETTLE_US));
        assert(wire@ =~= old(wire)@ + reset_script(rst.model()));

        let mut driver = ILI9486 { rw_interface: rw_interface, color_mode: PixelFormat::Rgb565 };

        driver.set_interface_pixel_format(wire, &color_mode)?;

        Ok(driver)
    }

    /// The pixel format that the controller was told last.
    pub fn pixel_format(&self) -> (format: PixelFormat)
        ensures
            format == self.color_mode(),
    {
        self.color_mode
    }

    /// Draws one pixel.
    pub fn _draw_pixel(&mut self, wire: &mut Wire, x: u16, y: u16, r: u8, g: u8, b: u8) -> (res:
        Result<(), DisplayError>)
        ensures
            final(self).bus() == old(self).bus(),
            final(self).color_mode() == old(self).color_mode(),
            res is Ok <==> carries(old(self).bus().data.len(), old(self).color_mode()),
            res is Err ==> res == Err::<(), DisplayError>(DisplayError::DataFormatNotImplemented),
            final(wire)@ == old(wire)@ + pixel_script(
                old(self).bus(),
                old(self).color_mode(),
                x,
                y,
                (r, g, b),
            ),
    {
        let ghost bus = self.bus();
        self.column_address_set(wire, x, x)?;
        self.page_address_set(wire, y, y)?;

        let start: [u32; 1] = [Command::MemoryWrite.opcode() as u32];
        assert(start@ =~= seq![Command::MemoryWrite.code() as u32]);
        self.rw_interface.write_stream(wire, WriteMode::Command, &start)?;
        assert(wire@ =~= old(wire)@ + window_script(bus, x, x, y, y) + memory_write(bus));
        let res = self.rw_interface.write_pixel_data(wire, &self.color_mode, &(r, g, b), None);
        assert(wire@ =~= old(wire)@ + pixel_script(bus, self.color_mode, x, y, (r, g, b)));
        res
    }

    /// Fills the rectangle of `width` columns from `x` and `height` pages
    /// from `y` with one colour.
    pub fn _draw_rect(
        &mut self,
        wire: &mut Wire,
        x: u16,
        y: u16,
        width: u32,
        height: u32,
        r: u8,
        g: u8,
        b: u8,
    ) -> (res: Result<(), DisplayError>)
        requires
            addressable(x, y, width, height),
        ensures
            final(self).bus() == old(self).bus(),
            final(self).color_mode() == old(self).color_mode(),
            res is Ok <==> carries(old(self).bus().data.len(), old(self).color_mode()),
            res is Err ==> res == Err::<(), DisplayError>(DisplayError::DataFormatNotImplemented),
            final(wire)@ == old(wire)@ + rect_script(
                old(self).bus(),
                old(self).color_mode(),
                x,
                y,
                width,
                height,
                (r, g, b),
            ),
    {
        let ghost bus = self.bus();
        self.column_address_set(wire, x, x + (width - 1) as u16)?;
        self.page_address_set(wire, y, y + (height - 1) as u16)?;

        assert(1 <= width * height <= 0x1_0000_0000) by (nonlinear_arith)
            requires
                1 <= width <= 0x1_0000,
                1 <= height <= 0x1_0000,
        ;
        let n: u64 = (width as u64) * (height as u64);
        let start: [u32; 1] = [Command::MemoryWrite.opcode() as u32];
        assert(start@ =~= seq![Command::MemoryWrite.code() as u32]);
        self.rw_interface.write_stream(wire, WriteMode::Command, &start)?;

        self.rw_interface.write_stream(wire, WriteMode::Command, &start)?;
        assert(wire@ =~= old(wire)@ + window_script(
            bus,
            x,
            (x + width - 1) as u16,
            y,
            (y + height - 1) as u16,
        ) + memory_write(bus) + memory_write(bus));

        let res = self.fill(wire, n, &(r, g, b));
        reveal(rect_script);
        assert(wire@ =~= old(wire)@ + rect_script(
            bus,
            self.color_mode,
            x,
            y,
            width,
            height,
            (r, g, b),
        ));
        res
    }

    /// Streams `n` times the same pixel, two at a time, and the last of an
    /// odd number alone.
    fn fill(&mut self, wire: &mut Wire, n: u64, pixel: &RGBPixel) -> (res: Result<
        (),
        DisplayError,
    >)
        requires
            n >= 1,
        ensures
            final(self).bus() == old(self).bus(),
            final(self).color_mode() == old(self).color_mode(),
            res is Ok <==> carries(old(self).bus().data.len(), old(self).color_mode()),
            res is Err ==> res == Err::<(), DisplayError>(DisplayError::DataFormatNotImplemented),
            final(wire)@ == old(wire)@ + if carries(
                old(self).bus().data.len(),
                old(self).color_mode(),
            ) {
                old(self).bus().write_runs(
                    fill_runs(
                        old(self).bus().data.len(),
                        old(self).color_mode(),
                        *pixel,
                        n as nat,
                    ),
                    fill_runs(
                        old(self).bus().data.len(),
                        old(self).color_mode(),
                        *pixel,
                        n as nat,
                    ).len(),
                )
            } else {
                Seq::empty()
            },
    {
        let ghost base = wire@;
        let ghost bus = self.bus();
        let ghost lines = bus.data.len();
        let ghost format = self.color_mode;
        let pairs: u64 = n / 2;
        let mut k: u64 = 0;
        assert(wire@ =~= base + bus.write_runs(pair_runs(lines, format, *pixel, 0), 0));
        while k < pairs
            invariant
                k <= pairs,
                base == old(wire)@,
                bus == self.bus(),
                bus == old(self).bus(),
                lines == bus.data.len(),
                format == self.color_mode(),
                format == old(self).color_mode(),
                k > 0 ==> carries(lines, format),
                wire@ == base + bus.write_runs(
                    pair_runs(lines, format, *pixel, k as nat),
                    pair_runs(lines, format, *pixel, k as nat).len(),
                ),
            decreases pairs - k,
        {
            let res = self.rw_interface.write_pixel_data(
                wire,
                &self.color_mode,
                pixel,
                Some(pixel),
            );
            if res.is_err() {
                assert(wire@ =~= base + Seq::<LineOp>::empty());
                return res;
            }
            proof {
                let done = pair_runs(lines, format, *pixel, k as nat);
                let pair = pixel_runs(lines, format, *pixel, Some(*pixel));
                lemma_write_runs_concat(bus, done, pair, pair.len());
                assert(wire@ =~= base + bus.write_runs(done + pair, (done + pair).len()));
            }
            k += 1;
        }
        let ghost done = pair_runs(lines, format, *pixel, pairs as nat);
        if n % 2 == 1 {
            let res = self.rw_interface.write_pixel_data(wire, &self.color_mode, pixel, None);
            if res.is_err() {
                assert(wire@ =~= base + Seq::<LineOp>::empty());
                return res;
            }
            proof {
                let last = pixel_runs(lines, format, *pixel, None);
                lemma_write_runs_concat(bus, done, last, last.len());
                assert(wire@ =~= base + bus.write_runs(done + last, (done + last).len()));
            }
        } else {
            assert(done + Seq::<Seq<u32>>::empty() =~= done);
        }
        Ok(())
    }

    /// The bus, to write to it directly.
    pub fn writer(&mut self) -> (bus: &mut RW)
        ensures
            *bus == old(self).interface(),
            final(self).interface() == *final(bus),
            final(self).color_mode() == old(self).color_mode(),
    {
        &mut self.rw_interface
    }

    /// The bus, to read from it directly.
    pub fn reader(&mut self) -> (bus: &mut RW)
        ensures
            *bus == old(self).interface(),
            final(self).interface() == *final(bus),
            final(self).color_mode() == old(self).color_mode(),
    {
        &mut self.rw_interface
    }

    /// Sends a command to the device: the opcode in command mode, then
    /// `data` in data mode, as a transaction of its own.
    pub fn write_command(&mut self, wire: &mut Wire, command: u8, data: &[u32]) -> (r: Result<
        (),
        DisplayError,
    >)
        ensures
            r is Ok,
            final(self).bus() == old(self).bus(),
            final(self).color_mode() == old(self).color_mode(),
            final(wire)@ == old(wire)@ + command_script(old(self).bus(), command, data@),
    {
        let opcode: [u32; 1] = [command as u32];
        assert(opcode@ =~= seq![command as u32]);
        self.rw_interface.write_stream(wire, WriteMode::Command, &opcode)?;
        let r = self.rw_interface.write_stream(wire, WriteMode::Data, data);
        assert(wire@ =~= old(wire)@ + command_script(self.bus(), command, data@));
        r
    }

    /// Sends a read command to the device: the opcode in command mode, then
    /// a read transaction that takes `count` words.
    pub fn read_command(&mut self, wire: &mut Wire, command: u8, count: usize) -> (r: Result<
        (),
        DisplayError,
    >)
        ensures
            final(self).bus() == old(self).bus(),
            final(self).color_mode() == old(self).color_mode(),
            r is Ok <==> old(self).bus().readable(),
            r is Err ==> r == Err::<(), DisplayError>(DisplayError::BusReadError),
            final(wire)@ == old(wire)@ + opcode_script(old(self).bus(), command) + if old(
                self,
            ).bus().readable() {
                old(self).bus().read_script(pulses(count as nat))
            } else {
                old(self).bus().read_leg(None)
            },
    {
        let opcode: [u32; 1] = [command as u32];
        assert(opcode@ =~= seq![command as u32]);
        self.rw_interface.write_stream(wire, WriteMode::Command, &opcode)?;
        read(&mut self.rw_interface, wire, count)
    }
}

} // verus!
