use ili9486::color::{
    encode_rgb565_16bit, encode_rgb565_8bit, encode_rgb666_16bit, encode_rgb666_18bit,
    encode_rgb666_8bit, PixelFormat, PixelStream, PixelWriter,
};
use ili9486::gpio::{GPIO16ParallelInterface, GPIO18ParallelInterface, GPIO8ParallelInterface};
use ili9486::interface::{DisplayError, ReadWriteInterface, WriteMode};
use ili9486::io::shim::OutputOnlyIoPin;
use ili9486::io::stm32f1xx::{DynamicIoPin, FloatingInput, PushPullOutput};
use ili9486::io::{IoPin, LineOp, OutputMode, Wire};
use ili9486::surface::{Point, StyledRectangle};
use ili9486::{Command, Commands, ILI9486, PANEL_HEIGHT, PANEL_WIDTH, RESET_PULSE_US, RESET_SETTLE_US};

const CS: u8 = 100;
const DCX: u8 = 101;
const RDX: u8 = 102;
const WRX: u8 = 103;
const RST: u8 = 104;

use WriteMode::{Command as C, Data as D};

fn pin(line: u8) -> DynamicIoPin {
    DynamicIoPin::new::<FloatingInput, PushPullOutput>(line)
}

/// A pin that was made an output and is kept one.
fn output_only(line: u8) -> OutputOnlyIoPin<DynamicIoPin> {
    let mut inner = pin(line);
    let mut wire: Wire = Vec::new();
    inner.into_output(&mut wire);
    OutputOnlyIoPin::new(inner)
}

type Pin = DynamicIoPin;
type Bus8 = GPIO8ParallelInterface<Pin, Pin, Pin, Pin, Pin>;
type Bus16 = GPIO16ParallelInterface<Pin, Pin, Pin, Pin, Pin>;
type Bus18 = GPIO18ParallelInterface<Pin, Pin, Pin, Pin, Pin>;

fn bus8() -> Bus8 {
    let mut wire: Wire = Vec::new();
    GPIO8ParallelInterface::new(
        &mut wire,
        pin(0),
        pin(1),
        pin(2),
        pin(3),
        pin(4),
        pin(5),
        pin(6),
        pin(7),
        pin(CS),
        pin(DCX),
        pin(RDX),
        pin(WRX),
    )
    .unwrap()
}

fn bus16() -> Bus16 {
    let mut wire: Wire = Vec::new();
    GPIO16ParallelInterface::new(
        &mut wire,
        pin(0),
        pin(1),
        pin(2),
        pin(3),
        pin(4),
        pin(5),
        pin(6),
        pin(7),
        pin(8),
        pin(9),
        pin(10),
        pin(11),
        pin(12),
        pin(13),
        pin(14),
        pin(15),
        pin(CS),
        pin(DCX),
        pin(RDX),
        pin(WRX),
    )
    .unwrap()
}

fn bus18() -> Bus18 {
    let mut wire: Wire = Vec::new();
    GPIO18ParallelInterface::new(
        &mut wire,
        pin(0),
        pin(1),
        pin(2),
        pin(3),
        pin(4),
        pin(5),
        pin(6),
        pin(7),
        pin(8),
        pin(9),
        pin(10),
        pin(11),
        pin(12),
        pin(13),
        pin(14),
        pin(15),
        pin(16),
        pin(17),
        pin(CS),
        pin(DCX),
        pin(RDX),
        pin(WRX),
    )
    .unwrap()
}

fn driver<RW: ReadWriteInterface>(bus: RW, format: PixelFormat) -> ILI9486<RW> {
    let mut wire: Wire = Vec::new();
    ILI9486::new(&mut wire, format, bus, pin(RST)).unwrap()
}

/// What a controller on the other end of the wire has seen.
struct Seen {
    /// Every word it took, with the level of the select line at that time.
    words: Vec<(WriteMode, u32)>,
    /// The number of words of each write transaction.
    transactions: Vec<usize>,
    /// How often the read strobe fell while the chip was selected.
    reads: usize,
    delays: Vec<u32>,
}

/// Carries out the operations against a controller that takes the word on the
/// data lines whenever the write strobe rises while it is selected.
fn replay(ops: &[LineOp]) -> Seen {
    let mut data = [false; 18];
    let (mut cs, mut dcx, mut rdx, mut wrx) = (true, true, true, true);
    let mut seen = Seen { words: Vec::new(), transactions: Vec::new(), reads: 0, delays: Vec::new() };
    for op in ops {
        match *op {
            LineOp::Drive(line, level) if line < 18 => data[line as usize] = level,
            LineOp::Drive(CS, level) => {
                if cs && !level {
                    seen.transactions.push(0);
                }
                cs = level;
            }
            LineOp::Drive(DCX, level) => dcx = level,
            LineOp::Drive(RDX, level) => {
                if rdx && !level && !cs {
                    seen.reads += 1;
                }
                rdx = level;
            }
            LineOp::Drive(WRX, level) => {
                if !wrx && level && !cs {
                    let word = (0..18).filter(|i| data[*i]).fold(0u32, |w, i| w | (1 << i));
                    seen.words.push((if dcx { D } else { C }, word));
                    *seen.transactions.last_mut().unwrap() += 1;
                }
                wrx = level;
            }
            LineOp::DelayUs(us) => seen.delays.push(us),
            _ => {}
        }
    }
    seen
}

fn data_words(seen: &Seen) -> Vec<u32> {
    seen.words.iter().filter(|(mode, _)| *mode == D).map(|(_, word)| *word).collect()
}

/// The address windows among the words, as (first column, last column, first
/// page, last page), and the number of data words that follow each.
fn windows(seen: &Seen) -> Vec<((u32, u32, u32, u32), usize)> {
    let w = &seen.words;
    let mut found = Vec::new();
    let mut i = 0;
    while i < w.len() {
        if w[i] == (C, 0x2a) {
            let word = |k: usize| w[i + k].1;
            assert_eq!(w[i + 5], (C, 0x2b));
            assert!((1..5).chain(6..10).all(|k| w[i + k].0 == D));
            let window = (
                word(1) << 8 | word(2),
                word(3) << 8 | word(4),
                word(6) << 8 | word(7),
                word(8) << 8 | word(9),
            );
            i += 10;
            while i < w.len() && w[i] == (C, 0x2c) {
                i += 1;
            }
            let start = i;
            while i < w.len() && w[i].0 == D {
                i += 1;
            }
            found.push((window, i - start));
        } else {
            i += 1;
        }
    }
    found
}

#[test]
fn the_opcodes_of_the_controller() {
    let table = [
        (Command::Nop, 0x00),
        (Command::SoftwareReset, 0x01),
        (Command::SleepOut, 0x11),
        (Command::NormalDisplayMode, 0x13),
        (Command::DisplayInversionOff, 0x20),
        (Command::DisplayOn, 0x29),
        (Command::ColumnAddressSet, 0x2a),
        (Command::PageAddressSet, 0x2b),
        (Command::MemoryWrite, 0x2c),
        (Command::MemoryAccessControl, 0x36),
        (Command::IdleModeOff, 0x38),
        (Command::InterfacePixelFormat, 0x3a),
    ];
    for (command, opcode) in table {
        assert_eq!(command.opcode(), opcode);
    }
}

#[test]
fn a_new_driver_resets_the_controller_and_tells_it_rgb565() {
    let mut wire: Wire = Vec::new();
    let driver = ILI9486::new(&mut wire, PixelFormat::Rgb565, bus8(), pin(RST));
    let driver = match driver {
        Ok(driver) => driver,
        Err(_) => panic!("a driver can always be set up"),
    };
    assert_eq!(driver.pixel_format(), PixelFormat::Rgb565);
    assert_eq!(
        wire[..5],
        [
            LineOp::MakeOutput(RST, OutputMode::PushPull),
            LineOp::Drive(RST, false),
            LineOp::DelayUs(20),
            LineOp::Drive(RST, true),
            LineOp::DelayUs(120_000),
        ]
    );
    assert_eq!((RESET_PULSE_US, RESET_SETTLE_US), (20, 120_000));
    let seen = replay(&wire[5..]);
    assert_eq!(seen.words, vec![(C, 0x3a), (D, 0x55)]);
    assert_eq!(seen.transactions, vec![1, 1]);
    assert!(!wire[5..].iter().any(|op| matches!(op, LineOp::Drive(RST, _) | LineOp::DelayUs(_))));
}

#[test]
fn a_new_driver_with_rgb666() {
    let mut wire: Wire = Vec::new();
    let driver = ILI9486::new(&mut wire, PixelFormat::Rgb666, bus8(), pin(RST)).ok().unwrap();
    assert_eq!(driver.pixel_format(), PixelFormat::Rgb666);
    let seen = replay(&wire);
    assert_eq!(seen.words, vec![(C, 0x3a), (D, 0x66)]);
    assert_eq!(seen.delays, vec![20, 120_000]);
}

#[test]
fn a_reset_line_that_is_output_only_is_not_switched() {
    let mut wire: Wire = Vec::new();
    let rst = output_only(RST);
    ILI9486::new(&mut wire, PixelFormat::Rgb565, bus8(), rst).ok().unwrap();
    assert_eq!(
        wire[..4],
        [
            LineOp::Drive(RST, false),
            LineOp::DelayUs(20),
            LineOp::Drive(RST, true),
            LineOp::DelayUs(120_000),
        ]
    );
}

#[test]
fn the_interface_pixel_format_command() {
    let mut driver = driver(bus8(), PixelFormat::Rgb565);
    let mut wire: Wire = Vec::new();
    assert_eq!(driver.set_interface_pixel_format(&mut wire, &PixelFormat::Rgb565), Ok(()));
    assert_eq!(replay(&wire).words, vec![(C, 0x3a), (D, 0x55)]);

    wire.clear();
    assert_eq!(driver.set_interface_pixel_format(&mut wire, &PixelFormat::Rgb666), Ok(()));
    assert_eq!(replay(&wire).words, vec![(C, 0x3a), (D, 0x66)]);
    assert_eq!(driver.pixel_format(), PixelFormat::Rgb666);
}

#[test]
fn a_changed_format_changes_how_pixels_are_written() {
    let mut driver = driver(bus8(), PixelFormat::Rgb565);
    let mut wire: Wire = Vec::new();
    driver.set_interface_pixel_format(&mut wire, &PixelFormat::Rgb666).unwrap();
    wire.clear();
    driver._draw_pixel(&mut wire, 0, 0, 0x3f, 0x01, 0x02).unwrap();
    assert_eq!(data_words(&replay(&wire))[8..], [0xfc, 0x04, 0x08]);
}

#[test]
fn the_column_address_command() {
    let mut driver = driver(bus8(), PixelFormat::Rgb565);
    let mut wire: Wire = Vec::new();
    assert_eq!(driver.column_address_set(&mut wire, 0x0012, 0x0140), Ok(()));
    let seen = replay(&wire);
    assert_eq!(seen.words, vec![(C, 0x2a), (D, 0x00), (D, 0x12), (D, 0x01), (D, 0x40)]);
    assert_eq!(seen.transactions, vec![1, 4]);
}

#[test]
fn the_page_address_command() {
    let mut driver = driver(bus8(), PixelFormat::Rgb565);
    let mut wire: Wire = Vec::new();
    assert_eq!(driver.page_address_set(&mut wire, 0xabcd, 0xffff), Ok(()));
    let seen = replay(&wire);
    assert_eq!(seen.words, vec![(C, 0x2b), (D, 0xab), (D, 0xcd), (D, 0xff), (D, 0xff)]);
    assert_eq!(seen.transactions, vec![1, 4]);
}

#[test]
fn address_commands_on_sixteen_lines_send_one_byte_per_word() {
    let mut driver = driver(bus16(), PixelFormat::Rgb565);
    let mut wire: Wire = Vec::new();
    driver.column_address_set(&mut wire, 0x0012, 0x0140).unwrap();
    assert_eq!(replay(&wire).words, vec![(C, 0x2a), (D, 0x00), (D, 0x12), (D, 0x01), (D, 0x40)]);
}

#[test]
fn a_command_is_two_transactions() {
    let mut driver = driver(bus8(), PixelFormat::Rgb565);
    let mut wire: Wire = Vec::new();
    assert_eq!(driver.write_command(&mut wire, 0x36, &[0x48]), Ok(()));
    let seen = replay(&wire);
    assert_eq!(seen.words, vec![(C, 0x36), (D, 0x48)]);
    assert_eq!(seen.transactions, vec![1, 1]);

    // the same as the two writes made by hand
    let mut bus = bus8();
    let mut by_hand: Wire = Vec::new();
    bus.write_stream(&mut by_hand, WriteMode::Command, &[0x36]).unwrap();
    bus.write_stream(&mut by_hand, WriteMode::Data, &[0x48]).unwrap();
    assert_eq!(wire, by_hand);
}

#[test]
fn a_command_without_parameters_still_opens_the_data_transaction() {
    let mut driver = driver(bus8(), PixelFormat::Rgb565);
    let mut wire: Wire = Vec::new();
    driver.write_command(&mut wire, Command::DisplayOn.opcode(), &[]).unwrap();
    let seen = replay(&wire);
    assert_eq!(seen.words, vec![(C, 0x29)]);
    assert_eq!(seen.transactions, vec![1, 0]);
}

#[test]
fn a_read_command_sends_the_opcode_and_takes_the_words() {
    let mut driver = driver(bus8(), PixelFormat::Rgb565);
    let mut wire: Wire = Vec::new();
    assert_eq!(driver.read_command(&mut wire, 0x0a, 2), Ok(()));
    let seen = replay(&wire);
    assert_eq!(seen.words, vec![(C, 0x0a)]);
    assert_eq!(seen.reads, 2);
    assert_eq!(wire.iter().filter(|op| matches!(op, LineOp::Sample(_))).count(), 16);
}

#[test]
fn a_read_command_on_lines_without_input_fails() {
    let mut wire: Wire = Vec::new();
    let shim = output_only;
    let bus = GPIO8ParallelInterface::new(
        &mut wire,
        shim(0),
        shim(1),
        shim(2),
        shim(3),
        shim(4),
        shim(5),
        shim(6),
        shim(7),
        pin(CS),
        pin(DCX),
        pin(RDX),
        pin(WRX),
    )
    .ok()
    .unwrap();
    let mut driver = driver(bus, PixelFormat::Rgb565);
    wire.clear();
    assert_eq!(driver.read_command(&mut wire, 0x0a, 2), Err(DisplayError::BusReadError));
    let seen = replay(&wire);
    assert_eq!(seen.words, vec![(C, 0x0a)]);
    assert_eq!(seen.reads, 1);
    assert_eq!(wire.last(), Some(&LineOp::Drive(RDX, false)));
}

#[test]
fn the_bus_of_a_driver_can_be_used_directly() {
    let mut driver = driver(bus8(), PixelFormat::Rgb565);
    let mut wire: Wire = Vec::new();
    driver.writer().write_stream(&mut wire, WriteMode::Command, &[0x11]).unwrap();
    driver.reader().read_stream(&mut wire, None).unwrap();
    driver.reader().read_stream(&mut wire, Some(false)).unwrap();
    let seen = replay(&wire);
    assert_eq!(seen.words, vec![(C, 0x11)]);
    assert_eq!(seen.reads, 1);
    assert_eq!(driver.pixel_format(), PixelFormat::Rgb565);
}

#[test]
fn one_pixel_gets_a_window_of_its_own() {
    let mut driver = driver(bus8(), PixelFormat::Rgb565);
    let mut wire: Wire = Vec::new();
    assert_eq!(driver._draw_pixel(&mut wire, 0x0105, 7, 0x12, 0x34, 0x56), Ok(()));
    let seen = replay(&wire);
    assert_eq!(
        seen.words,
        vec![
            (C, 0x2a),
            (D, 0x01),
            (D, 0x05),
            (D, 0x01),
            (D, 0x05),
            (C, 0x2b),
            (D, 0x00),
            (D, 0x07),
            (D, 0x00),
            (D, 0x07),
            (C, 0x2c),
            (D, 0x95),
            (D, 0x96),
        ]
    );
    assert_eq!(seen.transactions, vec![1, 4, 1, 4, 1, 2]);
}

#[test]
fn the_last_pixel_of_the_panel_can_be_drawn() {
    let mut driver = driver(bus8(), PixelFormat::Rgb565);
    let mut wire: Wire = Vec::new();
    assert_eq!(driver._draw_pixel(&mut wire, 0xffff, 0xffff, 0, 0, 0), Ok(()));
    assert_eq!(windows(&replay(&wire)), vec![((0xffff, 0xffff, 0xffff, 0xffff), 2)]);
}

#[test]
fn a_rectangle_of_three_pixels() {
    let mut driver = driver(bus8(), PixelFormat::Rgb565);
    let mut wire: Wire = Vec::new();
    assert_eq!(driver._draw_rect(&mut wire, 10, 20, 3, 1, 0x12, 0x34, 0x56), Ok(()));
    let seen = replay(&wire);
    assert_eq!(
        seen.words,
        vec![
            (C, 0x2a),
            (D, 0),
            (D, 10),
            (D, 0),
            (D, 12),
            (C, 0x2b),
            (D, 0),
            (D, 20),
            (D, 0),
            (D, 20),
            (C, 0x2c),
            (C, 0x2c),
            (D, 0x95),
            (D, 0x96),
            (D, 0x95),
            (D, 0x96),
            (D, 0x95),
            (D, 0x96),
        ]
    );
    // each pixel is a transaction of its own on eight lines
    assert_eq!(seen.transactions, vec![1, 4, 1, 4, 1, 1, 2, 2, 2]);
}

#[test]
fn a_rectangle_sends_one_pixel_for_each_of_its_places() {
    for (width, height) in [(1u32, 1u32), (2, 1), (1, 2), (3, 3), (4, 5), (7, 1), (16, 9)] {
        let mut driver = driver(bus8(), PixelFormat::Rgb666);
        let mut wire: Wire = Vec::new();
        driver._draw_rect(&mut wire, 5, 6, width, height, 1, 2, 3).unwrap();
        let seen = replay(&wire);
        let expected: Vec<u32> =
            (0..width * height).flat_map(|_| [0x04u32, 0x08, 0x0c]).collect();
        assert_eq!(data_words(&seen)[8..], expected[..]);
        assert_eq!(
            windows(&seen),
            vec![((5, 5 + width - 1, 6, 6 + height - 1), 3 * (width * height) as usize)]
        );
    }
}

#[test]
fn clearing_the_screen_fills_the_whole_panel_with_black() {
    let mut driver = driver(bus8(), PixelFormat::Rgb565);
    let mut wire: Wire = Vec::new();
    assert_eq!(driver.clear_screen(&mut wire), Ok(()));
    let seen = replay(&wire);
    assert_eq!(
        seen.words[..12],
        [
            (C, 0x2a),
            (D, 0x00),
            (D, 0x00),
            (D, 0x01),
            (D, 0x3f),
            (C, 0x2b),
            (D, 0x00),
            (D, 0x00),
            (D, 0x01),
            (D, 0xdf),
            (C, 0x2c),
            (C, 0x2c),
        ]
    );
    assert_eq!(windows(&seen), vec![((0, 319, 0, 479), 2 * 153_600)]);
    assert_eq!(seen.words.len(), 12 + 2 * 153_600);
    assert!(seen.words[12..].iter().all(|word| *word == (D, 0)));
    assert_eq!((PANEL_WIDTH * PANEL_HEIGHT, driver.size()), (153_600, (320, 480)));
}

#[test]
fn clearing_the_screen_is_the_fill_of_the_panel() {
    let mut a = driver(bus16(), PixelFormat::Rgb565);
    let mut b = driver(bus16(), PixelFormat::Rgb565);
    let mut cleared: Wire = Vec::new();
    let mut filled: Wire = Vec::new();
    a.clear_screen(&mut cleared).unwrap();
    b._draw_rect(&mut filled, 0, 0, 320, 480, 0, 0, 0).unwrap();
    assert!(cleared == filled);
    assert_eq!(windows(&replay(&cleared)), vec![((0, 319, 0, 479), 153_600)]);
}

#[test]
fn rgb565_on_sixteen_lines_sends_one_word_for_each_pixel() {
    let mut driver = driver(bus16(), PixelFormat::Rgb565);
    let mut wire: Wire = Vec::new();
    driver._draw_rect(&mut wire, 0, 0, 3, 1, 0x12, 0x34, 0x56).unwrap();
    let seen = replay(&wire);
    assert_eq!(data_words(&seen)[8..], [0x4b56, 0x4b56, 0x4b56]);
    // two neighbours share a transaction, the last pixel goes alone
    assert_eq!(seen.transactions[6..], [2, 1]);
}

#[test]
fn rgb666_on_sixteen_lines_packs_two_pixels_into_three_words() {
    let mut driver = driver(bus16(), PixelFormat::Rgb666);
    let mut wire: Wire = Vec::new();
    driver._draw_rect(&mut wire, 0, 0, 3, 1, 0x3f, 0x01, 0x20).unwrap();
    let seen = replay(&wire);
    let (one, two, three) = encode_rgb666_16bit(&(0x3f, 0x01, 0x20), &(0x3f, 0x01, 0x20));
    assert_eq!((one, two, three), (0xfc04, 0x80fc, 0x0480));
    assert_eq!(data_words(&seen)[8..], [0xfc04, 0x80fc, 0x0480, 0xfc04, 0x8000]);
    assert_eq!(seen.transactions[6..], [3, 2]);
}

#[test]
fn rgb666_on_eighteen_lines_sends_one_word_for_each_pixel() {
    let mut driver = driver(bus18(), PixelFormat::Rgb666);
    let mut wire: Wire = Vec::new();
    assert_eq!(driver._draw_rect(&mut wire, 0, 0, 3, 1, 0x3f, 0x00, 0x3f), Ok(()));
    let seen = replay(&wire);
    assert_eq!(data_words(&seen)[8..], [0x3f03f, 0x3f03f, 0x3f03f]);
    assert_eq!(seen.transactions[6..], [2, 1]);
}

#[test]
fn rgb565_on_eighteen_lines_is_not_implemented() {
    let mut driver = driver(bus18(), PixelFormat::Rgb565);
    let mut wire: Wire = Vec::new();
    assert_eq!(
        driver._draw_pixel(&mut wire, 1, 2, 3, 4, 5),
        Err(DisplayError::DataFormatNotImplemented)
    );
    // the window and the memory write command were planned, no pixel
    let seen = replay(&wire);
    assert_eq!(seen.words.len(), 11);
    assert_eq!(seen.words[10], (C, 0x2c));

    wire.clear();
    assert_eq!(
        driver._draw_rect(&mut wire, 0, 0, 4, 4, 0, 0, 0),
        Err(DisplayError::DataFormatNotImplemented)
    );
    assert_eq!(windows(&replay(&wire)), vec![((0, 3, 0, 3), 0)]);

    wire.clear();
    assert_eq!(driver.clear_screen(&mut wire), Err(DisplayError::DataFormatNotImplemented));
    assert_eq!(windows(&replay(&wire)), vec![((0, 319, 0, 479), 0)]);
}

#[test]
fn pixel_writer_on_eight_lines() {
    let mut bus = bus8();
    let mut wire: Wire = Vec::new();
    let a = (0x12, 0x34, 0x56);
    let b = (0xff, 0x00, 0x81);
    assert_eq!(bus.write_pixel_data(&mut wire, &PixelFormat::Rgb565, &a, Some(&b)), Ok(()));
    let seen = replay(&wire);
    let (a_hi, a_lo) = encode_rgb565_8bit(&a);
    let (b_hi, b_lo) = encode_rgb565_8bit(&b);
    assert_eq!(
        seen.words,
        vec![(D, a_hi as u32), (D, a_lo as u32), (D, b_hi as u32), (D, b_lo as u32)]
    );
    assert_eq!(seen.transactions, vec![2, 2]);

    wire.clear();
    assert_eq!(bus.write_pixel_data(&mut wire, &PixelFormat::Rgb666, &a, Some(&b)), Ok(()));
    let seen = replay(&wire);
    assert_eq!(data_words(&seen), vec![0x48, 0xd0, 0x58, 0xfc, 0x00, 0x04]);
    assert_eq!(encode_rgb666_8bit(&a), (0x48, 0xd0, 0x58));
    assert_eq!(seen.transactions, vec![3, 3]);

    wire.clear();
    assert_eq!(bus.write_pixel_data(&mut wire, &PixelFormat::Rgb666, &a, None), Ok(()));
    assert_eq!(data_words(&replay(&wire)), vec![0x48, 0xd0, 0x58]);
}

#[test]
fn pixel_writer_on_sixteen_lines() {
    let mut bus = bus16();
    let mut wire: Wire = Vec::new();
    let a = (0x12, 0x34, 0x56);
    let b = (0x3f, 0x01, 0x20);
    bus.write_pixel_data(&mut wire, &PixelFormat::Rgb565, &a, Some(&b)).unwrap();
    assert_eq!(
        data_words(&replay(&wire)),
        vec![encode_rgb565_16bit(&a) as u32, encode_rgb565_16bit(&b) as u32]
    );

    wire.clear();
    bus.write_pixel_data(&mut wire, &PixelFormat::Rgb565, &a, None).unwrap();
    assert_eq!(data_words(&replay(&wire)), vec![0x4b56]);

    wire.clear();
    bus.write_pixel_data(&mut wire, &PixelFormat::Rgb666, &a, Some(&b)).unwrap();
    let (one, two, three) = encode_rgb666_16bit(&a, &b);
    assert_eq!(data_words(&replay(&wire)), vec![one as u32, two as u32, three as u32]);

    wire.clear();
    bus.write_pixel_data(&mut wire, &PixelFormat::Rgb666, &a, None).unwrap();
    let (one, two, _) = encode_rgb666_16bit(&a, &(0, 0, 0));
    assert_eq!(data_words(&replay(&wire)), vec![one as u32, two as u32]);
}

#[test]
fn pixel_writer_on_eighteen_lines() {
    let mut bus = bus18();
    let mut wire: Wire = Vec::new();
    let a = (0x12, 0x34, 0x56);
    let b = (0x3f, 0x01, 0x20);
    assert_eq!(bus.write_pixel_data(&mut wire, &PixelFormat::Rgb666, &a, Some(&b)), Ok(()));
    let seen = replay(&wire);
    assert_eq!(
        data_words(&seen),
        vec![encode_rgb666_18bit(&a), encode_rgb666_18bit(&b)]
    );
    assert_eq!(data_words(&seen), vec![0x12d16, 0x3f060]);
    assert_eq!(seen.transactions, vec![2]);

    wire.clear();
    assert_eq!(bus.write_pixel_data(&mut wire, &PixelFormat::Rgb666, &a, None), Ok(()));
    assert_eq!(data_words(&replay(&wire)), vec![0x12d16]);

    wire.clear();
    assert_eq!(
        bus.write_pixel_data(&mut wire, &PixelFormat::Rgb565, &a, Some(&b)),
        Err(DisplayError::DataFormatNotImplemented)
    );
    assert_eq!(
        bus.write_repeated_pixel_data(&mut wire, &PixelFormat::Rgb565, &a, 3),
        Err(DisplayError::DataFormatNotImplemented)
    );
    assert_eq!(
        bus.write_repeated_pixel_data(&mut wire, &PixelFormat::Rgb565, &a, 0),
        Err(DisplayError::DataFormatNotImplemented)
    );
    assert!(wire.is_empty());
}

fn repeated_matches_single<RW: ReadWriteInterface>(mut bus: RW, format: PixelFormat) {
    let pixel = (0x9c, 0x35, 0xe7);
    for n in [0usize, 1, 2, 3, 10, 257] {
        let mut fast: Wire = Vec::new();
        let mut slow: Wire = Vec::new();
        assert_eq!(bus.write_repeated_pixel_data(&mut fast, &format, &pixel, n), Ok(()));
        for _ in 0..n {
            assert_eq!(bus.write_pixel_data(&mut slow, &format, &pixel, None), Ok(()));
        }
        let fast = replay(&fast);
        assert_eq!(fast.words, replay(&slow).words, "{} pixels", n);
        assert!(fast.words.iter().all(|(mode, _)| *mode == D));
    }
}

#[test]
fn repeated_pixels_carry_what_single_pixels_carry() {
    repeated_matches_single(bus8(), PixelFormat::Rgb565);
    repeated_matches_single(bus8(), PixelFormat::Rgb666);
    repeated_matches_single(bus16(), PixelFormat::Rgb565);
    repeated_matches_single(bus16(), PixelFormat::Rgb666);
    repeated_matches_single(bus18(), PixelFormat::Rgb666);
}

#[test]
fn repeated_rgb565_pixels_go_as_one_transaction() {
    let mut bus = bus8();
    let mut wire: Wire = Vec::new();
    bus.write_repeated_pixel_data(&mut wire, &PixelFormat::Rgb565, &(0x12, 0x34, 0x56), 3).unwrap();
    let seen = replay(&wire);
    assert_eq!(data_words(&seen), vec![0x95, 0x96, 0x95, 0x96, 0x95, 0x96]);
    assert_eq!(seen.transactions, vec![6]);

    wire.clear();
    bus.write_repeated_pixel_data(&mut wire, &PixelFormat::Rgb666, &(0x12, 0x34, 0x56), 3).unwrap();
    assert_eq!(replay(&wire).transactions, vec![3, 3, 3]);
}

#[test]
fn a_pixel_stream_hands_out_its_block_again_and_again() {
    let block = [7u32, 8, 9];
    let mut stream = PixelStream::new(2, &block).unwrap();
    let mut words = Vec::new();
    while let Some(word) = stream.next() {
        words.push(word);
    }
    assert_eq!(words, vec![7, 8, 9, 7, 8, 9]);
    assert_eq!(stream.next(), None);
}

#[test]
fn a_pixel_stream_of_no_pixels_is_empty() {
    let block = [1u32];
    let mut stream = PixelStream::new(0, &block).unwrap();
    assert_eq!(stream.next(), None);
}

#[test]
fn a_pixel_stream_needs_a_block_of_1_to_255_words() {
    assert!(PixelStream::new(3, &[]).is_none());
    assert!(PixelStream::new(3, &[0u32; 256]).is_none());
    let block = [5u32; 255];
    let mut stream = PixelStream::new(1, &block).unwrap();
    let mut count = 0;
    while let Some(word) = stream.next() {
        assert_eq!(word, 5);
        count += 1;
    }
    assert_eq!(count, 255);
}

fn rectangle(stroke_color: Option<(u8, u8, u8)>, stroke_width: u32) -> StyledRectangle {
    StyledRectangle {
        top_left: Point { x: 10, y: 20 },
        bottom_right: Point { x: 20, y: 40 },
        fill_color: Some((1, 2, 3)),
        stroke_color,
        stroke_width,
    }
}

#[test]
fn a_rectangle_without_stroke_is_its_inside() {
    let mut driver = driver(bus16(), PixelFormat::Rgb565);
    let mut wire: Wire = Vec::new();
    let item = rectangle(None, 0);
    assert!(item.is_drawable());
    assert_eq!(driver.draw_rectangle(&mut wire, &item), Ok(()));
    let seen = replay(&wire);
    assert_eq!(windows(&seen), vec![((10, 19, 20, 39), 200)]);
    let word = encode_rgb565_16bit(&(1, 2, 3)) as u32;
    assert!(data_words(&seen)[8..].iter().all(|w| *w == word));
}

#[test]
fn a_rectangle_without_fill_colour_is_black_inside() {
    let mut driver = driver(bus16(), PixelFormat::Rgb565);
    let mut wire: Wire = Vec::new();
    let mut item = rectangle(None, 0);
    item.fill_color = None;
    driver.draw_rectangle(&mut wire, &item).unwrap();
    let seen = replay(&wire);
    assert_eq!(windows(&seen), vec![((10, 19, 20, 39), 200)]);
    assert!(data_words(&seen)[8..].iter().all(|w| *w == 0));
}

#[test]
fn a_rectangle_with_stroke_is_its_inside_and_four_edges() {
    let mut driver = driver(bus16(), PixelFormat::Rgb565);
    let mut wire: Wire = Vec::new();
    let item = rectangle(Some((4, 5, 6)), 2);
    assert!(item.is_drawable());
    assert_eq!(driver.draw_rectangle(&mut wire, &item), Ok(()));
    let seen = replay(&wire);
    assert_eq!(
        windows(&seen),
        vec![
            ((10, 19, 20, 39), 200),
            ((10, 19, 20, 21), 20),
            ((10, 11, 22, 39), 36),
            ((18, 19, 22, 39), 36),
            ((12, 17, 38, 39), 12),
        ]
    );
    let fill = encode_rgb565_16bit(&(1, 2, 3)) as u32;
    let edge = encode_rgb565_16bit(&(4, 5, 6)) as u32;
    let pixels: Vec<u32> =
        seen.words.iter().filter(|(m, w)| *m == D && (*w == fill || *w == edge)).map(|p| p.1).collect();
    assert_eq!(pixels.iter().filter(|w| **w == fill).count(), 200);
    assert_eq!(pixels.iter().filter(|w| **w == edge).count(), 20 + 36 + 36 + 12);
}

#[test]
fn a_rectangle_on_a_bus_that_cannot_carry_the_format() {
    let mut driver = driver(bus18(), PixelFormat::Rgb565);
    let mut wire: Wire = Vec::new();
    let item = rectangle(Some((4, 5, 6)), 2);
    assert_eq!(
        driver.draw_rectangle(&mut wire, &item),
        Err(DisplayError::DataFormatNotImplemented)
    );
    assert_eq!(windows(&replay(&wire)), vec![((10, 19, 20, 39), 0)]);
}

#[test]
fn which_rectangles_can_be_drawn() {
    assert!(rectangle(None, 0).is_drawable());
    assert!(rectangle(None, 1000).is_drawable());
    assert!(rectangle(Some((0, 0, 0)), 1).is_drawable());
    assert!(rectangle(Some((0, 0, 0)), 4).is_drawable());
    // edges must leave room between them: 2 * 5 is the whole width
    assert!(!rectangle(Some((0, 0, 0)), 5).is_drawable());
    assert!(!rectangle(Some((0, 0, 0)), 0).is_drawable());
    assert!(!rectangle(Some((0, 0, 0)), u32::MAX).is_drawable());

    let mut empty = rectangle(None, 0);
    empty.bottom_right.x = empty.top_left.x;
    assert!(!empty.is_drawable());

    let mut negative = rectangle(None, 0);
    negative.top_left.y = -1;
    assert!(!negative.is_drawable());

    let mut largest = rectangle(None, 0);
    largest.top_left = Point { x: 0, y: 0x1_0000 - 1 };
    largest.bottom_right = Point { x: 0x1_0000, y: 0x1_0000 };
    assert!(largest.is_drawable());
    largest.bottom_right.x = 0x1_0001;
    assert!(!largest.is_drawable());

    let mut thin = rectangle(Some((0, 0, 0)), 1);
    thin.bottom_right.y = thin.top_left.y + 1;
    assert!(!thin.is_drawable());
}

#[test]
fn a_pixel_of_the_surface() {
    let mut driver = driver(bus8(), PixelFormat::Rgb565);
    let mut wire: Wire = Vec::new();
    assert_eq!(driver.draw_pixel(&mut wire, Point { x: 300, y: 400 }, (0x12, 0x34, 0x56)), Ok(()));
    let seen = replay(&wire);
    assert_eq!(windows(&seen), vec![((300, 300, 400, 400), 2)]);
    assert_eq!(data_words(&seen)[8..], [0x95, 0x96]);
}

#[test]
fn a_pixel_outside_sixteen_bits_keeps_the_low_bits_of_its_place() {
    let mut driver = driver(bus8(), PixelFormat::Rgb565);
    let mut wire: Wire = Vec::new();
    driver.draw_pixel(&mut wire, Point { x: 0x1_0005, y: -1 }, (0, 0, 0)).unwrap();
    assert_eq!(windows(&replay(&wire)), vec![((5, 5, 0xffff, 0xffff), 2)]);
}

#[test]
fn the_size_of_the_panel() {
    assert_eq!(driver(bus8(), PixelFormat::Rgb565).size(), (320, 480));
}
