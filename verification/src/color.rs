//! Pixel formats and their wire encodings.
use crate::interface::{BusWidth, DisplayError, ReadWriteInterface, WriteMode};
use crate::io::Wire;
use vstd::prelude::*;

verus! {

/// The pixel format that the controller expects on its interface.
#[derive(Clone, Copy, Debug, PartialEq, Eq, Structural)]
pub enum PixelFormat {
    /// 16 bits per pixel: 5 red, 6 green, 5 blue.
    Rgb565,
    /// 18 bits per pixel: 6 bits per channel.
    Rgb666,
}

impl PixelFormat {
    /// The value that stands for the format in the interface pixel format
    /// command.
    pub open spec fn value(self) -> u8 {
        match self {
            PixelFormat::Rgb565 => 0x55,
            PixelFormat::Rgb666 => 0x66,
        }
    }

    pub fn code(&self) -> (code: u8)
        ensures
            code == self.value(),
    {
        match self {
            PixelFormat::Rgb565 => 0b01010101,
            PixelFormat::Rgb666 => 0b01100110,
        }
    }

    /// The format that a value stands for; any value but the two that the
    /// controller knows is an invalid format.
    pub fn from_code(code: u8) -> (r: Result<PixelFormat, DisplayError>)
        ensures
            code == 0x55 ==> r == Ok::<PixelFormat, DisplayError>(PixelFormat::Rgb565),
            code == 0x66 ==> r == Ok::<PixelFormat, DisplayError>(PixelFormat::Rgb666),
            code != 0x55 && code != 0x66 ==> r == Err::<PixelFormat, DisplayError>(
                DisplayError::InvalidFormatError,
            ),
            r is Ok ==> r->Ok_0.value() == code,
    {
        if code == 0b01010101 {
            Ok(PixelFormat::Rgb565)
        } else if code == 0b01100110 {
            Ok(PixelFormat::Rgb666)
        } else {
            Err(DisplayError::InvalidFormatError)
        }
    }
}

/// (R, G, B), each channel with its full 8-bit range.
pub type RGBPixel = (u8, u8, u8);

/// First byte of an RGB565 pixel on an 8-bit bus.
pub open spec fn rgb565_8bit_hi(pixel: RGBPixel) -> u8 {
    ((pixel.0 & 0x1f) << 3) | ((pixel.1 >> 2) & 0x07)
}

/// Second byte of an RGB565 pixel on an 8-bit bus.
pub open spec fn rgb565_8bit_lo(pixel: RGBPixel) -> u8 {
    ((pixel.1 << 5) & 0xe0) | (pixel.2 & 0x1f)
}

/// The word of an RGB565 pixel on a 16-bit bus.
pub open spec fn rgb565_16bit(pixel: RGBPixel) -> u16 {
    (((pixel.0 & 0x1f) as u16) << 10) | (((pixel.1 & 0x3f) as u16) << 4) | ((pixel.2 & 0x1f) as u16)
}

/// The byte of one RGB666 channel on an 8-bit bus.
pub open spec fn rgb666_8bit(channel: u8) -> u8 {
    channel << 2
}

/// One of the three words that carry two RGB666 pixels on a 16-bit bus: the
/// six low bits of `first` above the six low bits of `second`.
pub open spec fn rgb666_16bit_word(first: u8, second: u8) -> u16 {
    (((first & 0x3f) as u16) << 10) | (((second & 0x3f) as u16) << 2)
}

/// The word of an RGB666 pixel on an 18-bit bus.
pub open spec fn rgb666_18bit(pixel: RGBPixel) -> u32 {
    (((pixel.0 & 0x3f) as u32) << 12) | (((pixel.1 & 0x3f) as u32) << 6) | ((pixel.2 & 0x3f) as u32)
}

/// Packs a pixel into the two bytes of RGB565 on an 8-bit bus.
pub fn encode_rgb565_8bit(pixel: &RGBPixel) -> (bytes: (u8, u8))
    ensures
        bytes.0 == rgb565_8bit_hi(*pixel),
        bytes.1 == rgb565_8bit_lo(*pixel),
{
    (
        ((pixel.0 & 0b11111) << 3) | ((pixel.1 >> 2) & 0b111),
        ((pixel.1 << 5) & 0b11100000) | (pixel.2 & 0b11111),
    )
}

/// Packs a pixel into the three bytes of RGB666 on an 8-bit bus.
pub fn encode_rgb666_8bit(pixel: &RGBPixel) -> (bytes: (u8, u8, u8))
    ensures
        bytes.0 == rgb666_8bit(pixel.0),
        bytes.1 == rgb666_8bit(pixel.1),
        bytes.2 == rgb666_8bit(pixel.2),
{
    (pixel.0 << 2, pixel.1 << 2, pixel.2 << 2)
}

/// Packs a pixel into the word of RGB565 on a 16-bit bus.
pub fn encode_rgb565_16bit(pixel: &RGBPixel) -> (word: u16)
    ensures
        word == rgb565_16bit(*pixel),
{
    (((pixel.0 & 0b11111) as u16) << 10) | (((pixel.1 & 0b111111) as u16) << 4) | (pixel.2
        & 0b11111) as u16
}

/// Packs two pixels into the three words of RGB666 on a 16-bit bus.
pub fn encode_rgb666_16bit(pixel_a: &RGBPixel, pixel_b: &RGBPixel) -> (words: (u16, u16, u16))
    ensures
        words.0 == rgb666_16bit_word(pixel_a.0, pixel_a.1),
        words.1 == rgb666_16bit_word(pixel_a.2, pixel_b.0),
        words.2 == rgb666_16bit_word(pixel_b.1, pixel_b.2),
{
    let one: u16 = (((pixel_a.0 & 0b111111) as u16) << 10) | (((pixel_a.1 & 0b111111) as u16) << 2);
    let two: u16 = (((pixel_a.2 & 0b111111) as u16) << 10) | (((pixel_b.0 & 0b111111) as u16) << 2);
    let three: u16 = (((pixel_b.1 & 0b111111) as u16) << 10) | (((pixel_b.2 & 0b111111) as u16)
        << 2);
    (one, two, three)
}

/// Packs a pixel into the word of RGB666 on an 18-bit bus.
pub fn encode_rgb666_18bit(pixel: &RGBPixel) -> (word: u32)
    ensures
        word == rgb666_18bit(*pixel),
        word < 0x4_0000,
{
    let r: u8 = pixel.0;
    let g: u8 = pixel.1;
    let b: u8 = pixel.2;
    assert((((r & 0x3f) as u32) << 12) | (((g & 0x3f) as u32) << 6) | ((b & 0x3f) as u32)
        < 0x4_0000u32) by (bit_vector);
    (((r & 0b111111) as u32) << 12) | (((g & 0b111111) as u32) << 6) | ((b & 0b111111) as u32)
}

/// The red field of an RGB565 pixel in its two bytes: the five high bits of
/// the first.
pub open spec fn rgb565_8bit_red(hi: u8, lo: u8) -> u8 {
    hi >> 3
}

/// The green field of an RGB565 pixel in its two bytes: the three low bits of
/// the first above the three high bits of the second.
pub open spec fn rgb565_8bit_green(hi: u8, lo: u8) -> u8 {
    ((hi & 0x07) << 3) | (lo >> 5)
}

/// The blue field of an RGB565 pixel in its two bytes: the five low bits of
/// the second.
pub open spec fn rgb565_8bit_blue(hi: u8, lo: u8) -> u8 {
    lo & 0x1f
}

/// Whether the green field of the two bytes gives back the six low bits of
/// the channel: the first byte takes bits 2 to 4 of the channel where the
/// field has its bits 3 to 5, so it does when bits 2 to 5 of the channel are
/// all alike.
pub open spec fn green_survives_8bit(g: u8) -> bool {
    g & 0x3c == 0 || g & 0x3c == 0x3c
}

proof fn lemma_fields_565_8bit(r: u8, g: u8, b: u8)
    by (bit_vector)
    ensures
        (((r & 0x1f) << 3) | ((g >> 2) & 0x07)) >> 3 == r & 0x1f,
        (((g << 5) & 0xe0) | (b & 0x1f)) & 0x1f == b & 0x1f,
        (((((r & 0x1f) << 3) | ((g >> 2) & 0x07)) & 0x07) << 3) | ((((g << 5) & 0xe0) | (b & 0x1f))
            >> 5) == (((g >> 2) & 0x07) << 3) | (g & 0x07),
        ((((g >> 2) & 0x07) << 3) | (g & 0x07) == g & 0x3f) <==> (g & 0x3c == 0 || g & 0x3c
            == 0x3c),
{
}

/// Of the two bytes of RGB565 on an 8-bit bus, the red and the blue field
/// are the five low bits of their channels, whatever the pixel; the green
/// field holds bits 2 to 4 of the channel above its bits 0 to 2.
pub proof fn lemma_rgb565_8bit_fields(pixel: RGBPixel)
    ensures
        rgb565_8bit_red(rgb565_8bit_hi(pixel), rgb565_8bit_lo(pixel)) == pixel.0 & 0x1f,
        rgb565_8bit_blue(rgb565_8bit_hi(pixel), rgb565_8bit_lo(pixel)) == pixel.2 & 0x1f,
        rgb565_8bit_green(rgb565_8bit_hi(pixel), rgb565_8bit_lo(pixel)) == (((pixel.1 >> 2) & 0x07)
            << 3) | (pixel.1 & 0x07),
        rgb565_8bit_green(rgb565_8bit_hi(pixel), rgb565_8bit_lo(pixel)) == pixel.1 & 0x3f
            <==> green_survives_8bit(pixel.1),
{
    lemma_fields_565_8bit(pixel.0, pixel.1, pixel.2);
}

/// Decoding the two bytes of RGB565 on an 8-bit bus gives back the pixel cut
/// to five, six and five bits, for every pixel whose green channel survives.
pub proof fn lemma_rgb565_8bit_round_trip(pixel: RGBPixel)
    requires
        green_survives_8bit(pixel.1),
    ensures
        rgb565_8bit_red(rgb565_8bit_hi(pixel), rgb565_8bit_lo(pixel)) == pixel.0 & 0x1f,
        rgb565_8bit_green(rgb565_8bit_hi(pixel), rgb565_8bit_lo(pixel)) == pixel.1 & 0x3f,
        rgb565_8bit_blue(rgb565_8bit_hi(pixel), rgb565_8bit_lo(pixel)) == pixel.2 & 0x1f,
{
    lemma_rgb565_8bit_fields(pixel);
}

/// The red field of an RGB565 word: five bits from bit 10.
pub open spec fn rgb565_16bit_red(word: u16) -> u16 {
    (word >> 10) & 0x1f
}

/// The green field of an RGB565 word: six bits from bit 4.
pub open spec fn rgb565_16bit_green(word: u16) -> u16 {
    (word >> 4) & 0x3f
}

/// The blue field of an RGB565 word: five bits from bit 0.
pub open spec fn rgb565_16bit_blue(word: u16) -> u16 {
    word & 0x1f
}

/// Whether green and blue keep out of each other's way in the word: bit 4
/// holds the lowest bit of green and the highest of blue, so they do when
/// the two are alike.
pub open spec fn green_blue_apart_16bit(g: u8, b: u8) -> bool {
    (g & 0x01 == 0x01) <==> (b & 0x10 == 0x10)
}

proof fn lemma_fields_565_16bit(r: u8, g: u8, b: u8)
    by (bit_vector)
    ensures
        ((((((r & 0x1f) as u16) << 10) | (((g & 0x3f) as u16) << 4) | ((b & 0x1f) as u16)) >> 10)
            & 0x1f) == (r & 0x1f) as u16,
        ((((((r & 0x1f) as u16) << 10) | (((g & 0x3f) as u16) << 4) | ((b & 0x1f) as u16)) >> 4)
            & 0x3f) == ((g & 0x3f) | ((b >> 4) & 0x01)) as u16,
        (((((r & 0x1f) as u16) << 10) | (((g & 0x3f) as u16) << 4) | ((b & 0x1f) as u16)) & 0x1f)
            == ((b & 0x1f) | ((g & 0x01) << 4)) as u16,
        ((g & 0x3f) | ((b >> 4) & 0x01) == g & 0x3f && (b & 0x1f) | ((g & 0x01) << 4) == b & 0x1f)
            <==> ((g & 0x01 == 0x01) <==> (b & 0x10 == 0x10)),
{
}

/// Of the word of RGB565 on a 16-bit bus, the red field is the five low bits
/// of its channel, whatever the pixel; the green field also holds bit 4 of
/// blue, and the blue field also holds bit 0 of green.
pub proof fn lemma_rgb565_16bit_fields(pixel: RGBPixel)
    ensures
        rgb565_16bit_red(rgb565_16bit(pixel)) == (pixel.0 & 0x1f) as u16,
        rgb565_16bit_green(rgb565_16bit(pixel)) == ((pixel.1 & 0x3f) | ((pixel.2 >> 4) & 0x01))
            as u16,
        rgb565_16bit_blue(rgb565_16bit(pixel)) == ((pixel.2 & 0x1f) | ((pixel.1 & 0x01) << 4))
            as u16,
        (rgb565_16bit_green(rgb565_16bit(pixel)) == (pixel.1 & 0x3f) as u16 && rgb565_16bit_blue(
            rgb565_16bit(pixel),
        ) == (pixel.2 & 0x1f) as u16) <==> green_blue_apart_16bit(pixel.1, pixel.2),
{
    lemma_fields_565_16bit(pixel.0, pixel.1, pixel.2);
}

/// The fields of the word of RGB565 on a 16-bit bus are the pixel cut to
/// five, six and five bits, for every pixel whose green and blue keep apart.
pub proof fn lemma_rgb565_16bit_round_trip(pixel: RGBPixel)
    requires
        green_blue_apart_16bit(pixel.1, pixel.2),
    ensures
        rgb565_16bit_red(rgb565_16bit(pixel)) == (pixel.0 & 0x1f) as u16,
        rgb565_16bit_green(rgb565_16bit(pixel)) == (pixel.1 & 0x3f) as u16,
        rgb565_16bit_blue(rgb565_16bit(pixel)) == (pixel.2 & 0x1f) as u16,
{
    lemma_rgb565_16bit_fields(pixel);
}

/// A channel of RGB666 on an 8-bit bus is the channel times four, without
/// what does not fit the byte: the six low bits of the channel above two
/// zero bits.
pub proof fn lemma_rgb666_8bit_shift(channel: u8)
    ensures
        rgb666_8bit(channel) == (channel * 4) % 256,
        rgb666_8bit(channel) >> 2 == channel & 0x3f,
        rgb666_8bit(channel) & 0x03 == 0,
{
    assert((channel << 2) == (channel * 4) % 256 && (channel << 2) >> 2 == channel & 0x3f && (
    channel << 2) & 0x03 == 0) by (bit_vector);
}

/// The words of one pixel as a run of its own, on a bus with `lines` data
/// lines. On sixteen lines an RGB666 pixel that goes alone is packed with a
/// black neighbour, and the third word is left out.
pub open spec fn single_run(lines: nat, format: PixelFormat, pixel: RGBPixel) -> Seq<u32> {
    if lines == 8 {
        match format {
            PixelFormat::Rgb565 => seq![
                rgb565_8bit_hi(pixel) as u32,
                rgb565_8bit_lo(pixel) as u32,
            ],
            PixelFormat::Rgb666 => seq![
                rgb666_8bit(pixel.0) as u32,
                rgb666_8bit(pixel.1) as u32,
                rgb666_8bit(pixel.2) as u32,
            ],
        }
    } else if lines == 16 {
        match format {
            PixelFormat::Rgb565 => seq![rgb565_16bit(pixel) as u32],
            PixelFormat::Rgb666 => seq![
                rgb666_16bit_word(pixel.0, pixel.1) as u32,
                rgb666_16bit_word(pixel.2, 0) as u32,
            ],
        }
    } else {
        seq![rgb666_18bit(pixel)]
    }
}

/// Whether a bus with `lines` data lines can carry the format: all can, but
/// for RGB565 on eighteen lines.
pub open spec fn carries(lines: nat, format: PixelFormat) -> bool {
    lines == 8 || lines == 16 || format == PixelFormat::Rgb666
}

/// The runs of data words that carry one pixel, or two: what is sent as one
/// write transaction each.
pub open spec fn pixel_runs(
    lines: nat,
    format: PixelFormat,
    pixel_a: RGBPixel,
    pixel_b: Option<RGBPixel>,
) -> Seq<Seq<u32>> {
    match pixel_b {
        None => seq![single_run(lines, format, pixel_a)],
        Some(b) => if lines == 8 {
            seq![single_run(lines, format, pixel_a), single_run(lines, format, b)]
        } else if lines == 16 && format == PixelFormat::Rgb666 {
            seq![
                seq![
                    rgb666_16bit_word(pixel_a.0, pixel_a.1) as u32,
                    rgb666_16bit_word(pixel_a.2, b.0) as u32,
                    rgb666_16bit_word(b.1, b.2) as u32,
                ],
            ]
        } else {
            seq![single_run(lines, format, pixel_a) + single_run(lines, format, b)]
        },
    }
}

/// `block`, `n` times over.
pub open spec fn repeat(block: Seq<u32>, n: nat) -> Seq<u32>
    decreases n,
{
    if n == 0 {
        Seq::empty()
    } else {
        repeat(block, (n - 1) as nat) + block
    }
}

/// The runs of data words that carry `n` times the same pixel. RGB565 goes
/// as a single run, encoded once; RGB666 pixel by pixel.
pub open spec fn repeated_runs(lines: nat, format: PixelFormat, pixel: RGBPixel, n: nat) -> Seq<
    Seq<u32>,
> {
    if format == PixelFormat::Rgb565 {
        seq![repeat(single_run(lines, format, pixel), n)]
    } else {
        Seq::new(n, |i: int| single_run(lines, format, pixel))
    }
}

/// The words of the first `n` runs, in the order in which the bus carries
/// them.
pub open spec fn words_of(runs: Seq<Seq<u32>>, n: nat) -> Seq<u32>
    decreases n,
{
    if n == 0 {
        Seq::empty()
    } else {
        words_of(runs, (n - 1) as nat) + runs[n - 1]
    }
}

/// Among runs that are followed by others, the first `k` carry the same
/// words as among those runs alone.
pub proof fn lemma_words_of_prefix(a: Seq<Seq<u32>>, b: Seq<Seq<u32>>, k: nat)
    requires
        k <= a.len(),
    ensures
        words_of(a + b, k) == words_of(a, k),
    decreases k,
{
    if k > 0 {
        lemma_words_of_prefix(a, b, (k - 1) as nat);
        assert((a + b)[k - 1] == a[k - 1]);
    }
}

/// Runs that follow one another carry words that follow one another.
pub proof fn lemma_words_of_concat(a: Seq<Seq<u32>>, b: Seq<Seq<u32>>, j: nat)
    requires
        j <= b.len(),
    ensures
        words_of(a + b, a.len() + j) == words_of(a, a.len()) + words_of(b, j),
    decreases j,
{
    if j == 0 {
        lemma_words_of_prefix(a, b, a.len());
        assert(words_of(a, a.len()) + words_of(b, 0) =~= words_of(a, a.len()));
    } else {
        lemma_words_of_concat(a, b, (j - 1) as nat);
        assert((a + b)[a.len() + j - 1] == b[j - 1]);
        assert(words_of(a + b, a.len() + j) =~= words_of(a, a.len()) + words_of(b, j));
    }
}

/// Of `n` runs that are all `block`, the first `m` carry `m` times `block`.
proof fn lemma_words_of_copies(block: Seq<u32>, n: nat, m: nat)
    requires
        m <= n,
    ensures
        words_of(Seq::new(n, |i: int| block), m) == repeat(block, m),
    decreases m,
{
    if m > 0 {
        lemma_words_of_copies(block, n, (m - 1) as nat);
    }
}

/// One pixel written alone carries the words of its run.
pub proof fn lemma_single_stream(lines: nat, format: PixelFormat, pixel: RGBPixel)
    ensures
        words_of(pixel_runs(lines, format, pixel, None), 1) == single_run(lines, format, pixel),
{
    let runs = pixel_runs(lines, format, pixel, None);
    assert(words_of(runs, 0) =~= Seq::<u32>::empty());
    assert(words_of(runs, 1) =~= runs[0]);
}

/// The same pixel written `n` times in one go carries, word for word, what
/// writing it alone `n` times carries.
pub proof fn lemma_repeated_stream(lines: nat, format: PixelFormat, pixel: RGBPixel, n: nat)
    ensures
        words_of(
            repeated_runs(lines, format, pixel, n),
            repeated_runs(lines, format, pixel, n).len(),
        ) == repeat(words_of(pixel_runs(lines, format, pixel, None), 1), n),
{
    let block = single_run(lines, format, pixel);
    let runs = repeated_runs(lines, format, pixel, n);
    lemma_single_stream(lines, format, pixel);
    if format == PixelFormat::Rgb565 {
        assert(words_of(runs, 0) =~= Seq::<u32>::empty());
        assert(words_of(runs, 1) =~= runs[0]);
    } else {
        lemma_words_of_copies(block, n, n);
    }
}

/// Hands out a run of words again and again: `total` times the first
/// `bytes_per_pixel` words of `pixel_data`.
pub struct PixelStream<'a> {
    total: usize,
    index: usize,
    bytes_per_pixel: u8,
    pixel_data: &'a [u32],
}

impl<'a> PixelStream<'a> {
    #[verifier::type_invariant]
    spec fn in_step(self) -> bool {
        &&& 0 < self.bytes_per_pixel <= self.pixel_data@.len()
        &&& self.index < self.bytes_per_pixel
    }

    /// The words that are still to come.
    pub closed spec fn remaining(self) -> Seq<u32> {
        if self.total == 0 {
            Seq::empty()
        } else {
            self.pixel_data@.subrange(self.index as int, self.bytes_per_pixel as int) + repeat(
                self.pixel_data@.take(self.bytes_per_pixel as int),
                (self.total - 1) as nat,
            )
        }
    }

    /// A stream of `total` times the whole of `pixel_data`; `None` where
    /// `pixel_data` is empty or longer than 255 words.
    pub fn new(total: usize, pixel_data: &'a [u32]) -> (stream: Option<PixelStream<'a>>)
        ensures
            stream is Some <==> 0 < pixel_data@.len() <= 255,
            stream is Some ==> stream->Some_0.remaining() == repeat(pixel_data@, total as nat),
    {
        let len: usize = pixel_data.len();
        if len == 0 || len > 255 {
            return None;
        }
        let stream = PixelStream {
            total: total,
            index: 0,
            bytes_per_pixel: len as u8,
            pixel_data: pixel_data,
        };
        proof {
            assert(pixel_data@.take(len as int) =~= pixel_data@);
            assert(pixel_data@.subrange(0, len as int) =~= pixel_data@);
            if total > 0 {
                lemma_repeat_front(pixel_data@, (total - 1) as nat);
            }
        }
        Some(stream)
    }

    /// The next word, or `None` when all have been handed out.
    pub fn next(&mut self) -> (word: Option<u32>)
        ensures
            old(self).remaining().len() == 0 ==> word is None && final(self).remaining()
                == old(self).remaining(),
            old(self).remaining().len() > 0 ==> word == Some(old(self).remaining()[0])
                && final(self).remaining() == old(self).remaining().drop_first(),
    {
        proof {
            use_type_invariant(&*self);
        }
        if self.total == 0 {
            None
        } else {
            let ghost block = self.pixel_data@.take(self.bytes_per_pixel as int);
            let ghost before = self.remaining();
            let result: u32 = self.pixel_data[self.index];
            let mut index: usize = self.index + 1;
            let mut total: usize = self.total;
            if index == self.bytes_per_pixel as usize {
                index = 0;
                total = total - 1;
            }
            let next = PixelStream {
                total: total,
                index: index,
                bytes_per_pixel: self.bytes_per_pixel,
                pixel_data: self.pixel_data,
            };
            proof {
                let rest = repeat(block, (self.total - 1) as nat);
                if self.index + 1 == self.bytes_per_pixel {
                    assert(self.pixel_data@.subrange(
                        self.index as int,
                        self.bytes_per_pixel as int,
                    ) =~= seq![result]);
                    assert(before.drop_first() =~= rest);
                    if total > 0 {
                        lemma_repeat_front(block, (total - 1) as nat);
                        assert(self.pixel_data@.subrange(0, self.bytes_per_pixel as int)
                            =~= block);
                    }
                } else {
                    assert(before.drop_first() =~= self.pixel_data@.subrange(
                        index as int,
                        self.bytes_per_pixel as int,
                    ) + rest);
                }
            }
            *self = next;
            Some(result)
        }
    }
}

/// A block in front of `n` copies of it is `n + 1` copies.
pub proof fn lemma_repeat_front(block: Seq<u32>, n: nat)
    ensures
        block + repeat(block, n) == repeat(block, n + 1),
    decreases n,
{
    if n == 0 {
        assert(repeat(block, 1) =~= block) by {
            assert(repeat(block, 0) =~= Seq::<u32>::empty());
        }
        assert(block + repeat(block, 0) =~= block);
    } else {
        lemma_repeat_front(block, (n - 1) as nat);
        assert(block + repeat(block, n) =~= (block + repeat(block, (n - 1) as nat)) + block);
    }
}

/// The pixel behind an optional reference.
pub open spec fn pixel_of(pixel: Option<&RGBPixel>) -> Option<RGBPixel> {
    match pixel {
        Some(p) => Some(*p),
        None => None,
    }
}

/// Writes pixels to a bus in the encoding that the pixel format and the width
/// of the bus ask for.
pub trait PixelWriter: ReadWriteInterface {
    /// Plans one pixel, or two neighbours, as data. Fails, and plans
    /// nothing, where the bus cannot carry the format.
    fn write_pixel_data(
        &mut self,
        wire: &mut Wire,
        pixel_format: &PixelFormat,
        pixel_a: &RGBPixel,
        pixel_b: Option<&RGBPixel>,
    ) -> (r: Result<(), DisplayError>)
        ensures
            final(self).model() == old(self).model(),
            r is Ok <==> carries(old(self).model().data.len(), *pixel_format),
            r is Err ==> r == Err::<(), DisplayError>(DisplayError::DataFormatNotImplemented)
                && final(wire)@ == old(wire)@,
            r is Ok ==> final(wire)@ == old(wire)@ + old(self).model().write_runs(
                pixel_runs(
                    old(self).model().data.len(),
                    *pixel_format,
                    *pixel_a,
                    pixel_of(pixel_b),
                ),
                pixel_runs(
                    old(self).model().data.len(),
                    *pixel_format,
                    *pixel_a,
                    pixel_of(pixel_b),
                ).len(),
            ),
    ;

    /// Plans `num` times the same pixel as data. Fails, and plans nothing,
    /// where the bus cannot carry the format.
    fn write_repeated_pixel_data(
        &mut self,
        wire: &mut Wire,
        pixel_format: &PixelFormat,
        pixel: &RGBPixel,
        num: usize,
    ) -> (r: Result<(), DisplayError>)
        ensures
            final(self).model() == old(self).model(),
            r is Ok <==> carries(old(self).model().data.len(), *pixel_format),
            r is Err ==> r == Err::<(), DisplayError>(DisplayError::DataFormatNotImplemented)
                && final(wire)@ == old(wire)@,
            r is Ok ==> final(wire)@ == old(wire)@ + old(self).model().write_runs(
                repeated_runs(old(self).model().data.len(), *pixel_format, *pixel, num as nat),
                repeated_runs(
                    old(self).model().data.len(),
                    *pixel_format,
                    *pixel,
                    num as nat,
                ).len(),
            ),
    ;
}

/// One run of data words, as a write transaction.
fn write_run<B: ReadWriteInterface>(
    bus: &mut B,
    wire: &mut Wire,
    words: &[u32],
    Ghost(before): Ghost<Seq<crate::io::LineOp>>,
    Ghost(runs): Ghost<Seq<Seq<u32>>>,
    Ghost(n): Ghost<nat>,
) -> (r: Result<(), DisplayError>)
    requires
        n < runs.len(),
        runs[n as int] == words@,
        old(wire)@ == before + old(bus).model().write_runs(runs, n),
    ensures
        r is Ok,
        final(bus).model() == old(bus).model(),
        final(wire)@ == before + old(bus).model().write_runs(runs, n + 1),
{
    let r = bus.write_stream(wire, WriteMode::Data, words);
    assert(wire@ =~= before + bus.model().write_runs(runs, n + 1));
    r
}

impl<B: ReadWriteInterface> PixelWriter for B {
    fn write_pixel_data(
        &mut self,
        wire: &mut Wire,
        pixel_format: &PixelFormat,
        pixel_a: &RGBPixel,
        pixel_b: Option<&RGBPixel>,
    ) -> (r: Result<(), DisplayError>) {
        let ghost before = wire@;
        let ghost lines = self.model().data.len();
        let ghost runs = pixel_runs(lines, *pixel_format, *pixel_a, pixel_of(pixel_b));
        assert(wire@ =~= before + self.model().write_runs(runs, 0));
        match self.width() {
            BusWidth::Bits8 => match pixel_format {
                PixelFormat::Rgb565 => {
                    let (hi, lo) = encode_rgb565_8bit(pixel_a);
                    let first: [u32; 2] = [hi as u32, lo as u32];
                    assert(first@ =~= runs[0]);
                    write_run(self, wire, &first, Ghost(before), Ghost(runs), Ghost(0))?;
                    match pixel_b {
                        Some(pixel) => {
                            let (hi, lo) = encode_rgb565_8bit(pixel);
                            let second: [u32; 2] = [hi as u32, lo as u32];
                            assert(second@ =~= runs[1]);
                            write_run(self, wire, &second, Ghost(before), Ghost(runs), Ghost(1))?;
                        },
                        None => {},
                    };
                    Ok(())
                },
                PixelFormat::Rgb666 => {
                    let (r, g, b) = encode_rgb666_8bit(pixel_a);
                    let first: [u32; 3] = [r as u32, g as u32, b as u32];
                    assert(first@ =~= runs[0]);
                    write_run(self, wire, &first, Ghost(before), Ghost(runs), Ghost(0))?;
                    match pixel_b {
                        Some(pixel) => {
                            let (r, g, b) = encode_rgb666_8bit(pixel);
                            let second: [u32; 3] = [r as u32, g as u32, b as u32];
                            assert(second@ =~= runs[1]);
                            write_run(self, wire, &second, Ghost(before), Ghost(runs), Ghost(1))?;
                        },
                        None => {},
                    }
                    Ok(())
                },
            },
            BusWidth::Bits16 => match pixel_format {
                PixelFormat::Rgb565 => match pixel_b {
                    Some(b) => {
                        let words: [u32; 2] = [
                            encode_rgb565_16bit(pixel_a) as u32,
                            encode_rgb565_16bit(b) as u32,
                        ];
                        assert(words@ =~= runs[0]);
                        write_run(self, wire, &words, Ghost(before), Ghost(runs), Ghost(0))
                    },
                    None => {
                        let words: [u32; 1] = [encode_rgb565_16bit(pixel_a) as u32];
                        assert(words@ =~= runs[0]);
                        write_run(self, wire, &words, Ghost(before), Ghost(runs), Ghost(0))
                    },
                },
                PixelFormat::Rgb666 => match pixel_b {
                    Some(b) => {
                        let (one, two, three) = encode_rgb666_16bit(pixel_a, b);
                        let words: [u32; 3] = [one as u32, two as u32, three as u32];
                        assert(words@ =~= runs[0]);
                        write_run(self, wire, &words, Ghost(before), Ghost(runs), Ghost(0))
                    },
                    None => {
                        let (one, two, _three) = encode_rgb666_16bit(pixel_a, &(0, 0, 0));
                        let words: [u32; 2] = [one as u32, two as u32];
                        assert(words@ =~= runs[0]);
                        write_run(self, wire, &words, Ghost(before), Ghost(runs), Ghost(0))
                    },
                },
            },
            BusWidth::Bits18 => match pixel_format {
                PixelFormat::Rgb565 => Err(DisplayError::DataFormatNotImplemented),
                PixelFormat::Rgb666 => match pixel_b {
                    Some(b) => {
                        let words: [u32; 2] = [
                            encode_rgb666_18bit(pixel_a),
                            encode_rgb666_18bit(b),
                        ];
                        assert(words@ =~= runs[0]);
                        write_run(self, wire, &words, Ghost(before), Ghost(runs), Ghost(0))
                    },
                    None => {
                        let words: [u32; 1] = [encode_rgb666_18bit(pixel_a)];
                        assert(words@ =~= runs[0]);
                        write_run(self, wire, &words, Ghost(before), Ghost(runs), Ghost(0))
                    },
                },
            },
        }
    }

    fn write_repeated_pixel_data(
        &mut self,
        wire: &mut Wire,
        pixel_format: &PixelFormat,
        pixel: &RGBPixel,
        num: usize,
    ) -> (r: Result<(), DisplayError>) {
        let ghost before = wire@;
        let ghost lines = self.model().data.len();
        let ghost runs = repeated_runs(lines, *pixel_format, *pixel, num as nat);
        assert(wire@ =~= before + self.model().write_runs(runs, 0));
        match pixel_format {
            PixelFormat::Rgb565 => {
                let mut words: Vec<u32> = Vec::new();
                match self.width() {
                    BusWidth::Bits8 => {
                        let (hi, lo) = encode_rgb565_8bit(pixel);
                        let block: [u32; 2] = [hi as u32, lo as u32];
                        assert(block@ =~= single_run(lines, *pixel_format, *pixel));
                        stream_into(&mut words, num, &block);
                    },
                    BusWidth::Bits16 => {
                        let block: [u32; 1] = [encode_rgb565_16bit(pixel) as u32];
                        assert(block@ =~= single_run(lines, *pixel_format, *pixel));
                        stream_into(&mut words, num, &block);
                    },
                    BusWidth::Bits18 => {
                        return Err(DisplayError::DataFormatNotImplemented);
                    },
                }
                write_run(self, wire, words.as_slice(), Ghost(before), Ghost(runs), Ghost(0))
            },
            PixelFormat::Rgb666 => {
                let mut i: usize = 0;
                while i < num
                    invariant
                        i <= num,
                        before == old(wire)@,
                        self.model() == old(self).model(),
                        lines == self.model().data.len(),
                        runs == repeated_runs(lines, *pixel_format, *pixel, num as nat),
                        *pixel_format == PixelFormat::Rgb666,
                        wire@ == before + self.model().write_runs(runs, i as nat),
                    decreases num - i,
                {
                    let ghost sofar = wire@;
                    self.write_pixel_data(wire, pixel_format, pixel, None)?;
                    proof {
                        let one = pixel_runs(lines, *pixel_format, *pixel, None);
                        assert(self.model().write_runs(one, 1) =~= self.model().write_script(
                            WriteMode::Data,
                            one[0],
                        )) by {
                            assert(self.model().write_runs(one, 0) =~= Seq::empty());
                        }
                        assert(wire@ =~= before + self.model().write_runs(runs, (i + 1) as nat));
                    }
                    i += 1;
                }
                Ok(())
            },
        }
    }
}

/// Appends `total` times `block` to `words`.
fn stream_into(words: &mut Vec<u32>, total: usize, block: &[u32])
    requires
        0 < block@.len() <= 255,
    ensures
        final(words)@ == old(words)@ + repeat(block@, total as nat),
{
    let ghost before = words@;
    match PixelStream::new(total, block) {
        Some(mut stream) => {
            assert(words@ + stream.remaining() =~= before + repeat(block@, total as nat));
            loop
                invariant
                    words@ + stream.remaining() == before + repeat(block@, total as nat),
                ensures
                    words@ == before + repeat(block@, total as nat),
                decreases stream.remaining().len(),
            {
                let ghost rest = stream.remaining();
                let ghost sofar = words@;
                match stream.next() {
                    Some(word) => {
                        words.push(word);
                        assert(words@ + stream.remaining() =~= sofar + rest);
                    },
                    None => {
                        assert(words@ + stream.remaining() =~= words@);
                        break ;
                    },
                }
            }
        },
        None => {},
    }
}

} // verus!
