//! Colours, brightness and what the LED of each board is driven with.
use vstd::prelude::*;

verus! {

/// The share of full brightness that is used, out of 255.
pub const BRIGHTNESS: u8 = 64;

/// The boards that the firmware runs on.
#[derive(Clone, Copy, Debug, PartialEq, Eq, Structural)]
pub enum Board {
    /// A development kit with a colour LED.
    Devkit,
    /// A small board with a plain LED that lights up when its pin is low.
    Xiao,
}

/// A colour, by its three channels.
#[derive(Clone, Copy, Debug, PartialEq, Eq, Structural)]
pub struct Rgb8 {
    /// Red.
    pub r: u8,
    /// Green.
    pub g: u8,
    /// Blue.
    pub b: u8,
}

/// The level of an output pin.
#[derive(Clone, Copy, Debug, PartialEq, Eq, Structural)]
pub enum Level {
    /// Low.
    Low,
    /// High.
    High,
}

/// What an LED is driven with.
#[derive(Clone, Copy, Debug, PartialEq, Eq, Structural)]
pub enum LedOutput {
    /// A colour for the pixel.
    Pixel(Rgb8),
    /// A level for the pin.
    Pin(Level),
}

/// Whether the LED gives no light.
pub open spec fn is_dark(output: LedOutput) -> bool {
    output == LedOutput::Pixel(Rgb8 { r: 0, g: 0, b: 0 }) || output == LedOutput::Pin(Level::High)
}

/// The output that shows a colour. The plain LED is lit for any colour but black.
pub open spec fn shown(board: Board, r: u8, g: u8, b: u8) -> LedOutput {
    match board {
        Board::Devkit => LedOutput::Pixel(Rgb8 { r, g, b }),
        Board::Xiao => LedOutput::Pin(
            if r == 0 && g == 0 && b == 0 {
                Level::High
            } else {
                Level::Low
            },
        ),
    }
}

/// One channel at the brightness in use, rounded down.
pub open spec fn dimmed(c: u8) -> u8 {
    (c as int * BRIGHTNESS as int / 255) as u8
}

/// A dimmed channel fits in a byte.
proof fn dimming_is_exact(c: u8)
    ensures
        dimmed(c) as int == c as int * BRIGHTNESS as int / 255,
        dimmed(c) as int == c as int * 64 / 255,
        dimmed(c) <= 64,
{
    assert(c as int * BRIGHTNESS as int == c as int * 64) by (nonlinear_arith)
        requires
            BRIGHTNESS == 64,
    ;
    assert(c as int * 64 / 255 <= 64);
}

/// Yellow for a zap, or no light.
pub open spec fn zap_light(board: Board, on: bool) -> LedOutput {
    if on {
        shown(board, 64, 50, 0)
    } else {
        shown(board, 0, 0, 0)
    }
}

/// Blue while Wi-Fi is being waited for, or no light.
pub open spec fn wifi_light(board: Board, on: bool) -> LedOutput {
    if on {
        shown(board, 0, 0, 64)
    } else {
        shown(board, 0, 0, 0)
    }
}

/// What the LED is driven with to show a colour.
pub fn led_set(board: Board, r: u8, g: u8, b: u8) -> (output: LedOutput)
    ensures
        output == shown(board, r, g, b),
        board is Devkit ==> output is Pixel && output->Pixel_0.r == r && output->Pixel_0.g == g
            && output->Pixel_0.b == b,
        board is Xiao ==> output is Pin && (output->Pin_0 is High <==> r == 0 && g == 0 && b == 0),
{
    match board {
        Board::Devkit => LedOutput::Pixel(Rgb8 { r, g, b }),
        Board::Xiao => LedOutput::Pin(
            if r > 0 || g > 0 || b > 0 {
                Level::Low
            } else {
                Level::High
            },
        ),
    }
}

/// Dims one channel.
pub fn scale(c: u8) -> (r: u8)
    ensures
        r == dimmed(c),
        r as int == c as int * 64 / 255,
{
    proof {
        dimming_is_exact(c);
    }
    ((c as u16 * BRIGHTNESS as u16) / 255) as u8
}

/// What the LED is driven with to show a colour that is given at full brightness. The plain LED
/// knows no shades: it is lit for any colour but black.
pub fn set_led_color(board: Board, r: u8, g: u8, b: u8) -> (output: LedOutput)
    ensures
        output == (match board {
            Board::Devkit => LedOutput::Pixel(Rgb8 { r: dimmed(r), g: dimmed(g), b: dimmed(b) }),
            Board::Xiao => shown(board, r, g, b),
        }),
        board is Devkit ==> output is Pixel && output->Pixel_0.r as int == r as int * 64 / 255
            && output->Pixel_0.g as int == g as int * 64 / 255 && output->Pixel_0.b as int == b as int
            * 64 / 255,
        board is Xiao ==> output is Pin && (output->Pin_0 is High <==> r == 0 && g == 0 && b == 0),
{
    proof {
        dimming_is_exact(r);
        dimming_is_exact(g);
        dimming_is_exact(b);
    }
    match board {
        Board::Devkit => LedOutput::Pixel(Rgb8 { r: scale(r), g: scale(g), b: scale(b) }),
        Board::Xiao => led_set(board, r, g, b),
    }
}

/// What the LED is driven with in either half of a zap blink.
pub fn set_led(board: Board, on: bool) -> (output: LedOutput)
    ensures
        output == zap_light(board, on),
{
    if on {
        set_led_color(board, 255, 200, 0)
    } else {
        set_led_color(board, 0, 0, 0)
    }
}

/// What the LED is driven with in either half of a Wi-Fi blink.
pub fn set_led_wifi(board: Board, on: bool) -> (output: LedOutput)
    ensures
        output == wifi_light(board, on),
{
    if on {
        set_led_color(board, 0, 0, 255)
    } else {
        set_led_color(board, 0, 0, 0)
    }
}

/// Dimming keeps the order of two channel values and never exceeds the brightness in use; black
/// stays black and full brightness becomes the brightness in use.
pub proof fn dimming_keeps_order(a: u8, b: u8)
    requires
        a <= b,
    ensures
        dimmed(a) <= dimmed(b) <= BRIGHTNESS,
        dimmed(0) == 0,
        dimmed(255) == BRIGHTNESS,
{
    dimming_is_exact(a);
    dimming_is_exact(b);
    dimming_is_exact(0);
    dimming_is_exact(255);
}

/// A colour leaves the LED dark exactly if it is black, on either board.
pub proof fn only_black_is_dark(board: Board, r: u8, g: u8, b: u8)
    ensures
        is_dark(shown(board, r, g, b)) <==> r == 0 && g == 0 && b == 0,
{
}

/// Each blink has a lit and a dark half, on either board.
pub proof fn blinks_have_two_halves(board: Board)
    ensures
        !is_dark(zap_light(board, true)),
        is_dark(zap_light(board, false)),
        !is_dark(wifi_light(board, true)),
        is_dark(wifi_light(board, false)),
        zap_light(board, false) == wifi_light(board, false),
{
}

/// A colour reaches the colour LED as it is, channel by channel, and the plain LED as light or no
/// light: its pin is high exactly for black.
pub proof fn colours_are_shown_as_they_are(r: u8, g: u8, b: u8)
    ensures
        shown(Board::Devkit, r, g, b) is Pixel,
        shown(Board::Devkit, r, g, b)->Pixel_0.r == r,
        shown(Board::Devkit, r, g, b)->Pixel_0.g == g,
        shown(Board::Devkit, r, g, b)->Pixel_0.b == b,
        shown(Board::Xiao, r, g, b) is Pin,
        shown(Board::Xiao, r, g, b)->Pin_0 is High <==> r == 0 && g == 0 && b == 0,
{
}

/// A zap is shown in yellow, the wait for Wi-Fi in blue, at a quarter of full brightness.
pub proof fn zaps_are_yellow_and_waiting_is_blue(on: bool)
    ensures
        ({
            let zap = zap_light(Board::Devkit, on)->Pixel_0;
            let wifi = wifi_light(Board::Devkit, on)->Pixel_0;
            let lit: int = if on {
                1
            } else {
                0
            };
            &&& zap_light(Board::Devkit, on) is Pixel
            &&& wifi_light(Board::Devkit, on) is Pixel
            &&& zap.r == 64 * lit && zap.g == 50 * lit && zap.b == 0
            &&& wifi.r == 0 && wifi.g == 0 && wifi.b == 64 * lit
            &&& zap_light(Board::Xiao, on) is Pin
            &&& wifi_light(Board::Xiao, on) is Pin
            &&& zap_light(Board::Xiao, on)->Pin_0 is Low <==> on
            &&& wifi_light(Board::Xiao, on)->Pin_0 is Low <==> on
        }),
{
}

} // verus!
