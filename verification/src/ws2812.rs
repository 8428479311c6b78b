//! The pulse train that a WS2812 colour LED understands.
use crate::led::Rgb8;
use vstd::prelude::*;

verus! {

/// The resolution of the pulse generator: ten million ticks a second.
pub const RMT_RESOLUTION_HZ: u32 = 10_000_000;

/// How long the line is high for a zero, in nanoseconds.
pub const T0H_NANOS: u64 = 350;

/// How long the line is low for a zero, in nanoseconds.
pub const T0L_NANOS: u64 = 800;

/// How long the line is high for a one, in nanoseconds.
pub const T1H_NANOS: u64 = 700;

/// How long the line is low for a one, in nanoseconds.
pub const T1L_NANOS: u64 = 600;

/// How long the line is low before a pixel, in nanoseconds.
pub const TRESET_NANOS: u64 = 281_000;

/// How long the line is low after the last pixel, in nanoseconds.
pub const TAIL_NANOS: u64 = 1_000_000;

/// The symbols of one pixel: the pause, then eight for each channel.
pub const FRAME_SYMBOLS: usize = 25;

/// The symbols did not all fit.
#[derive(Clone, Copy, Debug, PartialEq, Eq, Structural)]
pub struct NotEnoughSpace;

/// Turns colours into the symbols of a pulse generator.
#[derive(Debug, PartialEq, Eq)]
pub struct LedEncoder<S> {
    /// The symbol of a zero bit.
    pub zero: S,
    /// The symbol of a one bit.
    pub one: S,
    /// The pause before a pixel.
    pub reset: S,
    /// The pause after the last pixel, which makes the LEDs take over their colours.
    pub tail: Vec<S>,
}

/// What the line does for a symbol, or for a pause that may take several.
#[derive(Clone, Copy, Debug, PartialEq, Eq, Structural)]
pub enum Timing {
    /// It is high, then low.
    HighLow {
        /// How long it is high, in nanoseconds.
        high_nanos: u64,
        /// How long it is low, in nanoseconds.
        low_nanos: u64,
    },
    /// It is low all the time.
    Low {
        /// How long, in nanoseconds.
        nanos: u64,
    },
}

/// What the line does for each kind of symbol. A zero is high for 350 and low for 800
/// nanoseconds, a one is high for 700 and low for 600, the pause before a pixel is low for 281
/// microseconds, and the pause after the last one is low for a millisecond.
pub fn timings() -> (r: LedEncoder<Timing>)
    ensures
        r.zero == (Timing::HighLow { high_nanos: 350, low_nanos: 800 }),
        r.one == (Timing::HighLow { high_nanos: 700, low_nanos: 600 }),
        r.reset == (Timing::Low { nanos: 281_000 }),
        r.tail@ == seq![(Timing::Low { nanos: 1_000_000 })],
{
    let mut tail: Vec<Timing> = Vec::new();
    tail.push(Timing::Low { nanos: TAIL_NANOS });
    LedEncoder {
        zero: Timing::HighLow { high_nanos: T0H_NANOS, low_nanos: T0L_NANOS },
        one: Timing::HighLow { high_nanos: T1H_NANOS, low_nanos: T1L_NANOS },
        reset: Timing::Low { nanos: TRESET_NANOS },
        tail,
    }
}

/// The weight of the `i`th bit of a byte, most significant first.
pub open spec fn weight(i: int) -> int {
    if i == 0 {
        128
    } else if i == 1 {
        64
    } else if i == 2 {
        32
    } else if i == 3 {
        16
    } else if i == 4 {
        8
    } else if i == 5 {
        4
    } else if i == 6 {
        2
    } else {
        1
    }
}

/// Whether the `i`th bit of a byte is set, most significant first.
pub open spec fn bit_set(byte: u8, i: int) -> bool {
    (byte as int / weight(i)) % 2 == 1
}

/// The bits determine the byte.
pub proof fn bits_determine_byte(a: u8, b: u8)
    requires
        forall|i: int| 0 <= i < 8 ==> #[trigger] bit_set(a, i) == bit_set(b, i),
    ensures
        a == b,
{
    assert(bit_set(a, 0) == bit_set(b, 0));
    assert(bit_set(a, 1) == bit_set(b, 1));
    assert(bit_set(a, 2) == bit_set(b, 2));
    assert(bit_set(a, 3) == bit_set(b, 3));
    assert(bit_set(a, 4) == bit_set(b, 4));
    assert(bit_set(a, 5) == bit_set(b, 5));
    assert(bit_set(a, 6) == bit_set(b, 6));
    assert(bit_set(a, 7) == bit_set(b, 7));
    assert(a == b) by (bit_vector)
        requires
            (a / 128) % 2 == 1 <==> (b / 128) % 2 == 1,
            (a / 64) % 2 == 1 <==> (b / 64) % 2 == 1,
            (a / 32) % 2 == 1 <==> (b / 32) % 2 == 1,
            (a / 16) % 2 == 1 <==> (b / 16) % 2 == 1,
            (a / 8) % 2 == 1 <==> (b / 8) % 2 == 1,
            (a / 4) % 2 == 1 <==> (b / 4) % 2 == 1,
            (a / 2) % 2 == 1 <==> (b / 2) % 2 == 1,
            (a / 1) % 2 == 1 <==> (b / 1) % 2 == 1,
    ;
}

/// Looks at the `i`th bit of a byte, most significant first.
pub fn bit(byte: u8, i: u8) -> (r: bool)
    requires
        i < 8,
    ensures
        r == bit_set(byte, i as int),
        r <==> (byte >> ((7 - i) as u8)) & 1 == 1,
{
    assert((byte >> 7u8) & 1 == (byte / 128) % 2 && (byte >> 6u8) & 1 == (byte / 64) % 2 && (byte
        >> 5u8) & 1 == (byte / 32) % 2 && (byte >> 4u8) & 1 == (byte / 16) % 2 && (byte >> 3u8) & 1
        == (byte / 8) % 2 && (byte >> 2u8) & 1 == (byte / 4) % 2 && (byte >> 1u8) & 1 == (byte / 2)
        % 2 && (byte >> 0u8) & 1 == byte % 2) by (bit_vector);
    (byte >> (7 - i)) & 1 == 1
}

impl<S> LedEncoder<S> {
    /// The symbols of a byte, most significant bit first.
    pub open spec fn byte_symbols(self, byte: u8) -> Seq<S> {
        Seq::new(
            8,
            |i: int|
                if bit_set(byte, i) {
                    self.one
                } else {
                    self.zero
                },
        )
    }

    /// The symbols of a pixel: the pause, then green, red and blue.
    pub open spec fn frame(self, color: Rgb8) -> Seq<S> {
        seq![self.reset] + self.byte_symbols(color.g) + self.byte_symbols(color.r)
            + self.byte_symbols(color.b)
    }

    /// The symbols of a row of pixels.
    pub open spec fn frames(self, colors: Seq<Rgb8>) -> Seq<S>
        decreases colors.len(),
    {
        if colors.len() == 0 {
            Seq::empty()
        } else {
            self.frames(colors.drop_last()) + self.frame(colors.last())
        }
    }

    /// Whether all symbols of a row of pixels, and the pause after them, fit.
    pub open spec fn fits(self, colors: Seq<Rgb8>, free: nat) -> bool {
        FRAME_SYMBOLS * colors.len() + self.tail@.len() <= free
    }

    /// The pixels whose symbols fit: all of them, or as many as there is room for.
    pub open spec fn fitting(self, colors: Seq<Rgb8>, free: nat) -> Seq<Rgb8> {
        if FRAME_SYMBOLS * colors.len() <= free {
            colors
        } else {
            colors.take(free as int / FRAME_SYMBOLS as int)
        }
    }

    /// The symbols that are written to `free` places. A pixel is written whole or not at all,
    /// and so is the pause after the last one.
    pub open spec fn written(self, colors: Seq<Rgb8>, free: nat) -> Seq<S> {
        if self.fits(colors, free) {
            self.frames(colors) + self.tail@
        } else {
            self.frames(self.fitting(colors, free))
        }
    }

    /// A row of pixels has as many symbols as its pixels together.
    proof fn frames_length(self, colors: Seq<Rgb8>)
        ensures
            self.frames(colors).len() == FRAME_SYMBOLS * colors.len(),
        decreases colors.len(),
    {
        if colors.len() > 0 {
            self.frames_length(colors.drop_last());
        }
    }

    /// No two colours have the same symbols, as long as a zero and a one differ.
    pub proof fn frame_determines_color(self, a: Rgb8, b: Rgb8)
        requires
            self.zero != self.one,
            self.frame(a) == self.frame(b),
        ensures
            a == b,
    {
        let x = self.frame(a);
        let y = self.frame(b);
        assert forall|i: int| 0 <= i < 8 implies #[trigger] bit_set(a.g, i) == bit_set(b.g, i) by {
            assert(x[1 + i] == self.byte_symbols(a.g)[i]);
            assert(y[1 + i] == self.byte_symbols(b.g)[i]);
        }
        assert forall|i: int| 0 <= i < 8 implies #[trigger] bit_set(a.r, i) == bit_set(b.r, i) by {
            assert(x[9 + i] == self.byte_symbols(a.r)[i]);
            assert(y[9 + i] == self.byte_symbols(b.r)[i]);
        }
        assert forall|i: int| 0 <= i < 8 implies #[trigger] bit_set(a.b, i) == bit_set(b.b, i) by {
            assert(x[17 + i] == self.byte_symbols(a.b)[i]);
            assert(y[17 + i] == self.byte_symbols(b.b)[i]);
        }
        bits_determine_byte(a.g, b.g);
        bits_determine_byte(a.r, b.r);
        bits_determine_byte(a.b, b.b);
    }

    /// No two rows of colours have the same symbols, as long as a zero and a one differ.
    pub proof fn frames_determine_colors(self, a: Seq<Rgb8>, b: Seq<Rgb8>)
        requires
            self.zero != self.one,
            self.frames(a) == self.frames(b),
        ensures
            a == b,
        decreases a.len(),
    {
        self.frames_length(a);
        self.frames_length(b);
        assert(a.len() == b.len());
        if a.len() > 0 {
            self.frames_length(a.drop_last());
            self.frames_length(b.drop_last());
            let n = FRAME_SYMBOLS * (a.len() - 1);
            let x = self.frames(a);
            let y = self.frames(b);
            assert(x.take(n) =~= self.frames(a.drop_last()));
            assert(y.take(n) =~= self.frames(b.drop_last()));
            assert(x.skip(n) =~= self.frame(a.last()));
            assert(y.skip(n) =~= self.frame(b.last()));
            self.frames_determine_colors(a.drop_last(), b.drop_last());
            self.frame_determines_color(a.last(), b.last());
            assert(a =~= a.drop_last().push(a.last()));
            assert(b =~= b.drop_last().push(b.last()));
        }
    }

    /// The symbols of the first pixels come first.
    proof fn frames_of_first_pixels(self, colors: Seq<Rgb8>, n: int)
        requires
            0 <= n <= colors.len(),
        ensures
            self.frames(colors.take(n)).is_prefix_of(self.frames(colors)),
        decreases colors.len(),
    {
        if n == colors.len() {
            assert(colors.take(n) =~= colors);
        } else {
            self.frames_of_first_pixels(colors.drop_last(), n);
            assert(colors.drop_last().take(n) =~= colors.take(n));
        }
    }

    /// More room only adds symbols: what is written to a smaller buffer is the beginning of what
    /// is written to a larger one.
    pub proof fn more_room_adds_symbols(self, colors: Seq<Rgb8>, free: nat, more: nat)
        requires
            free <= more,
        ensures
            self.written(colors, free).is_prefix_of(self.written(colors, more)),
    {
        let large = self.fitting(colors, more);
        let small = self.fitting(colors, free);
        assert(small.len() <= large.len());
        assert(small =~= large.take(small.len() as int));
        self.frames_of_first_pixels(large, small.len() as int);
        assert(self.frames(large).is_prefix_of(self.written(colors, more)));
    }

    /// No more symbols are written than there is room for.
    pub proof fn written_fits(self, colors: Seq<Rgb8>, free: nat)
        ensures
            self.written(colors, free).len() <= free,
    {
        self.frames_length(colors);
        self.frames_length(self.fitting(colors, free));
    }
}

/// Bits are counted from the most significant one: the `i`th is the one that is left when the byte
/// is shifted right until only the first `i + 1` of its eight bits remain.
pub proof fn bits_are_counted_from_the_top(byte: u8, i: int)
    requires
        0 <= i < 8,
    ensures
        bit_set(byte, i) <==> (byte >> ((7 - i) as u8)) & 1 == 1,
{
    assert((byte >> 7u8) & 1 == (byte / 128) % 2 && (byte >> 6u8) & 1 == (byte / 64) % 2 && (byte
        >> 5u8) & 1 == (byte / 32) % 2 && (byte >> 4u8) & 1 == (byte / 16) % 2 && (byte >> 3u8) & 1
        == (byte / 8) % 2 && (byte >> 2u8) & 1 == (byte / 4) % 2 && (byte >> 1u8) & 1 == (byte / 2)
        % 2 && (byte >> 0u8) & 1 == byte % 2) by (bit_vector);
}

/// A number doubled `n` times.
pub open spec fn doubled(x: int, n: nat) -> int
    decreases n,
{
    if n == 0 {
        x
    } else {
        2 * doubled(x, (n - 1) as nat)
    }
}

impl<S> LedEncoder<S> {
    /// The number that symbols stand for in binary, most significant first.
    pub open spec fn reading(self, symbols: Seq<S>) -> int
        decreases symbols.len(),
    {
        if symbols.len() == 0 {
            0
        } else {
            2 * self.reading(symbols.drop_last()) + (if symbols.last() == self.one {
                1int
            } else {
                0int
            })
        }
    }

    /// Whether the `k`th pixel in a row of symbols is a pause and then a colour as a number of
    /// twenty-four binary digits, the most significant first: green, red and blue.
    pub open spec fn shows(self, symbols: Seq<S>, k: int, color: Rgb8) -> bool {
        &&& 25 * k + 25 <= symbols.len()
        &&& symbols[25 * k] == self.reset
        &&& self.reading(symbols.subrange(25 * k + 1, 25 * k + 25)) == color.g * 65536 + color.r
            * 256 + color.b
    }

    /// How many pixels are written to `free` places.
    pub open spec fn pixels_written(self, colors: Seq<Rgb8>, free: nat) -> int {
        if 25 * colors.len() <= free {
            colors.len() as int
        } else {
            free as int / 25
        }
    }

    proof fn reading_adds_up(self, first: Seq<S>, second: Seq<S>)
        ensures
            self.reading(first + second) == doubled(self.reading(first), second.len())
                + self.reading(second),
        decreases second.len(),
    {
        if second.len() == 0 {
            assert(first + second =~= first);
        } else {
            self.reading_adds_up(first, second.drop_last());
            assert((first + second).drop_last() =~= first + second.drop_last());
        }
    }

    proof fn byte_reads_back(self, byte: u8)
        requires
            self.zero != self.one,
        ensures
            self.reading(self.byte_symbols(byte)) == byte,
    {
        let s = self.byte_symbols(byte);
        reveal_with_fuel(LedEncoder::reading, 9);
        assert(s.drop_last().drop_last().drop_last().drop_last().drop_last().drop_last()
            .drop_last().drop_last() =~= Seq::<S>::empty());
        assert(byte == 128 * ((byte / 128) % 2) + 64 * ((byte / 64) % 2) + 32 * ((byte / 32) % 2)
            + 16 * ((byte / 16) % 2) + 8 * ((byte / 8) % 2) + 4 * ((byte / 4) % 2) + 2 * ((byte / 2)
            % 2) + byte % 2) by (bit_vector);
    }

    proof fn frame_reads_back(self, color: Rgb8)
        requires
            self.zero != self.one,
        ensures
            self.frame(color).len() == 25,
            self.frame(color)[0] == self.reset,
            self.reading(self.frame(color).subrange(1, 25)) == color.g * 65536 + color.r * 256
                + color.b,
    {
        let g = self.byte_symbols(color.g);
        let r = self.byte_symbols(color.r);
        let b = self.byte_symbols(color.b);
        self.byte_reads_back(color.g);
        self.byte_reads_back(color.r);
        self.byte_reads_back(color.b);
        self.reading_adds_up(g, r);
        self.reading_adds_up(g + r, b);
        reveal_with_fuel(doubled, 9);
        assert(self.frame(color).subrange(1, 25) =~= g + r + b);
    }

    /// The symbols of the `k`th pixel stand behind those of the pixels before it.
    proof fn frame_of_pixel(self, colors: Seq<Rgb8>, k: int)
        requires
            0 <= k < colors.len(),
        ensures
            self.frames(colors).len() == 25 * colors.len(),
            self.frames(colors).subrange(25 * k, 25 * k + 25) == self.frame(colors[k]),
        decreases colors.len(),
    {
        self.frames_length(colors);
        self.frames_length(colors.drop_last());
        let front = self.frames(colors.drop_last());
        let whole = self.frames(colors);
        if k == colors.len() - 1 {
            assert(whole.subrange(25 * k, 25 * k + 25) =~= self.frame(colors[k]));
        } else {
            self.frame_of_pixel(colors.drop_last(), k);
            assert(whole.subrange(25 * k, 25 * k + 25) =~= front.subrange(25 * k, 25 * k + 25));
        }
    }

    /// What is written for the `k`th pixel that fits is its frame.
    proof fn written_frame(self, colors: Seq<Rgb8>, free: nat, k: int)
        requires
            0 <= k < self.pixels_written(colors, free),
        ensures
            25 * k + 25 <= self.written(colors, free).len(),
            self.written(colors, free).subrange(25 * k, 25 * k + 25) == self.frame(colors[k]),
    {
        let fitting = self.fitting(colors, free);
        self.frame_of_pixel(fitting, k);
        assert(fitting[k] == colors[k]);
        let whole = self.written(colors, free);
        assert(whole.subrange(25 * k, 25 * k + 25) =~= self.frames(fitting).subrange(
            25 * k,
            25 * k + 25,
        ));
    }

    /// Every pixel that fits is a pause and then its colour as a number of twenty-four binary
    /// digits, the most significant first: green, red and blue.
    pub proof fn pixels_read_back(self, colors: Seq<Rgb8>, free: nat, k: int)
        requires
            self.zero != self.one,
            0 <= k < self.pixels_written(colors, free),
        ensures
            25 * k + 25 <= self.written(colors, free).len(),
            self.written(colors, free)[25 * k] == self.reset,
            self.reading(self.written(colors, free).subrange(25 * k + 1, 25 * k + 25))
                == colors[k].g * 65536 + colors[k].r * 256 + colors[k].b,
    {
        self.written_frame(colors, free, k);
        self.frame_reads_back(colors[k]);
        let whole = self.written(colors, free);
        let frame = whole.subrange(25 * k, 25 * k + 25);
        assert(frame[0] == whole[25 * k]);
        assert(frame.subrange(1, 25) =~= whole.subrange(25 * k + 1, 25 * k + 25));
    }

    /// So it is for all pixels that fit, and nothing but the pause stands behind them.
    proof fn all_pixels_read_back(self, colors: Seq<Rgb8>, free: nat)
        ensures
            self.written(colors, free).len() == 25 * self.pixels_written(colors, free) + (
            if self.fits(colors, free) {
                self.tail@.len()
            } else {
                0
            }),
            self.zero != self.one ==> forall|k: int|
                0 <= k < self.pixels_written(colors, free) ==> #[trigger] self.shows(
                    self.written(colors, free),
                    k,
                    colors[k],
                ),
    {
        self.pause_comes_last(colors, free);
        if self.zero != self.one {
            assert forall|k: int|
                0 <= k < self.pixels_written(colors, free) implies #[trigger] self.shows(
                self.written(colors, free),
                k,
                colors[k],
            ) by {
                self.pixels_read_back(colors, free, k);
            }
        }
    }

    /// Each channel of every pixel that fits goes out most significant bit first: its `i`th symbol
    /// is a one exactly if the bit of weight two to the power of `7 - i` is set.
    pub proof fn channels_go_out_from_the_top(
        self,
        colors: Seq<Rgb8>,
        free: nat,
        k: int,
        i: int,
    )
        requires
            0 <= k < self.pixels_written(colors, free),
            0 <= i < 8,
        ensures
            ({
                let symbols = self.written(colors, free);
                let shift = (7 - i) as u8;
                &&& symbols.len() >= 25 * k + 25
                &&& symbols[25 * k + 1 + i] == (if (colors[k].g >> shift) & 1 == 1 {
                    self.one
                } else {
                    self.zero
                })
                &&& symbols[25 * k + 9 + i] == (if (colors[k].r >> shift) & 1 == 1 {
                    self.one
                } else {
                    self.zero
                })
                &&& symbols[25 * k + 17 + i] == (if (colors[k].b >> shift) & 1 == 1 {
                    self.one
                } else {
                    self.zero
                })
            }),
    {
        self.written_frame(colors, free, k);
        bits_are_counted_from_the_top(colors[k].g, i);
        bits_are_counted_from_the_top(colors[k].r, i);
        bits_are_counted_from_the_top(colors[k].b, i);
        let whole = self.written(colors, free);
        let frame = whole.subrange(25 * k, 25 * k + 25);
        assert(whole[25 * k + 1 + i] == frame[1 + i]);
        assert(whole[25 * k + 9 + i] == frame[9 + i]);
        assert(whole[25 * k + 17 + i] == frame[17 + i]);
    }

    /// The pause after the last pixel comes exactly if everything fits, and then right behind the
    /// pixels. Else nothing but whole pixels is written, as many as there is room for.
    pub proof fn pause_comes_last(self, colors: Seq<Rgb8>, free: nat)
        ensures
            ({
                let symbols = self.written(colors, free);
                let n = 25 * self.pixels_written(colors, free);
                if 25 * colors.len() + self.tail@.len() <= free {
                    &&& n == 25 * colors.len()
                    &&& symbols.len() == n + self.tail@.len()
                    &&& symbols.skip(n) == self.tail@
                } else {
                    symbols.len() == n
                }
            }),
    {
        self.frames_length(colors);
        self.frames_length(self.fitting(colors, free));
        if 25 * colors.len() + self.tail@.len() <= free {
            assert(self.written(colors, free).skip(25 * colors.len() as int) =~= self.tail@);
        }
    }
}

impl<S: Copy> LedEncoder<S> {
    /// Appends the symbols of a byte.
    fn push_byte(&self, symbols: &mut Vec<S>, byte: u8)
        ensures
            final(symbols)@ == old(symbols)@ + self.byte_symbols(byte),
    {
        for i in 0u8..8u8
            invariant
                symbols@ == old(symbols)@ + self.byte_symbols(byte).take(i as int),
        {
            symbols.push(
                if bit(byte, i) {
                    self.one
                } else {
                    self.zero
                },
            );
        }
        assert(self.byte_symbols(byte).take(8) =~= self.byte_symbols(byte));
    }

    /// Encodes a row of pixels, and the pause after them, for a buffer with `free` places left.
    /// Gives the symbols that are written, and whether these are all.
    pub fn encode(&self, input: &[Rgb8], free: usize) -> (r: (Vec<S>, Result<(), NotEnoughSpace>))
        ensures
            r.0@ == self.written(input@, free as nat),
            r.1 is Ok <==> self.fits(input@, free as nat),
            r.1 is Ok <==> 25 * input@.len() + self.tail@.len() <= free,
            r.0@.len() == 25 * self.pixels_written(input@, free as nat) + (if r.1 is Ok {
                self.tail@.len()
            } else {
                0
            }),
            self.zero != self.one ==> forall|k: int|
                0 <= k < self.pixels_written(input@, free as nat) ==> #[trigger] self.shows(
                    r.0@,
                    k,
                    input@[k],
                ),
    {
        proof {
            self.all_pixels_read_back(input@, free as nat);
        }
        let mut symbols: Vec<S> = Vec::new();
        for n in 0..input.len()
            invariant
                symbols@ == self.frames(input@.take(n as int)),
                symbols@.len() == FRAME_SYMBOLS * n,
                symbols@.len() <= free,
        {
            if free - symbols.len() < FRAME_SYMBOLS {
                assert(self.fitting(input@, free as nat) =~= input@.take(n as int));
                proof {
                    self.all_pixels_read_back(input@, free as nat);
                }
                return (symbols, Err(NotEnoughSpace));
            }
            let c = input[n];
            symbols.push(self.reset);
            self.push_byte(&mut symbols, c.g);
            self.push_byte(&mut symbols, c.r);
            self.push_byte(&mut symbols, c.b);
            assert(input@.take(n + 1).drop_last() =~= input@.take(n as int));
            assert(symbols@ =~= self.frames(input@.take(n as int)) + self.frame(c));
        }
        assert(input@.take(input@.len() as int) =~= input@);
        if free - symbols.len() < self.tail.len() {
            return (symbols, Err(NotEnoughSpace));
        }
        for n in 0..self.tail.len()
            invariant
                symbols@ == self.frames(input@) + self.tail@.take(n as int),
        {
            symbols.push(self.tail[n]);
        }
        assert(self.tail@.take(self.tail@.len() as int) =~= self.tail@);
        (symbols, Ok(()))
    }
}

} // verus!
