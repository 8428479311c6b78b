use zappy::led::{led_set, scale, set_led, set_led_color, set_led_wifi, Board, LedOutput, Level, Rgb8};

#[test]
fn channels_are_dimmed_to_a_quarter() {
    assert_eq!(scale(0), 0);
    assert_eq!(scale(3), 0);
    assert_eq!(scale(4), 1);
    assert_eq!(scale(100), 25);
    assert_eq!(scale(200), 50);
    assert_eq!(scale(255), 64);
}

#[test]
fn dimming_keeps_the_order() {
    for c in 0..255u8 {
        assert!(scale(c) <= scale(c + 1));
    }
}

#[test]
fn the_colour_led_shows_colours() {
    assert_eq!(led_set(Board::Devkit, 1, 2, 3), LedOutput::Pixel(Rgb8 { r: 1, g: 2, b: 3 }));
    assert_eq!(
        set_led_color(Board::Devkit, 255, 200, 100),
        LedOutput::Pixel(Rgb8 { r: 64, g: 50, b: 25 })
    );
    assert_eq!(set_led(Board::Devkit, true), LedOutput::Pixel(Rgb8 { r: 64, g: 50, b: 0 }));
    assert_eq!(set_led_wifi(Board::Devkit, true), LedOutput::Pixel(Rgb8 { r: 0, g: 0, b: 64 }));
    assert_eq!(set_led(Board::Devkit, false), LedOutput::Pixel(Rgb8 { r: 0, g: 0, b: 0 }));
    assert_eq!(set_led_wifi(Board::Devkit, false), LedOutput::Pixel(Rgb8 { r: 0, g: 0, b: 0 }));
}

#[test]
fn the_plain_led_is_active_low() {
    assert_eq!(led_set(Board::Xiao, 0, 0, 0), LedOutput::Pin(Level::High));
    assert_eq!(led_set(Board::Xiao, 1, 0, 0), LedOutput::Pin(Level::Low));
    assert_eq!(led_set(Board::Xiao, 0, 1, 0), LedOutput::Pin(Level::Low));
    assert_eq!(led_set(Board::Xiao, 0, 0, 1), LedOutput::Pin(Level::Low));
    assert_eq!(set_led(Board::Xiao, true), LedOutput::Pin(Level::Low));
    assert_eq!(set_led(Board::Xiao, false), LedOutput::Pin(Level::High));
    assert_eq!(set_led_wifi(Board::Xiao, true), LedOutput::Pin(Level::Low));
    assert_eq!(set_led_wifi(Board::Xiao, false), LedOutput::Pin(Level::High));
    assert_eq!(set_led_color(Board::Xiao, 0, 0, 2), LedOutput::Pin(Level::Low));
}

#[test]
fn both_firmwares_show_the_same_colours() {
    for board in [Board::Devkit, Board::Xiao] {
        assert_eq!(set_led(board, true), led_set(board, 64, 50, 0));
        assert_eq!(set_led_wifi(board, true), led_set(board, 0, 0, 64));
    }
}
