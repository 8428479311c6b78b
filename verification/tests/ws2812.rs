use zappy::led::Rgb8;
use zappy::ws2812::{bit, timings, LedEncoder, NotEnoughSpace, Timing};

fn encoder() -> LedEncoder<char> {
    LedEncoder { zero: '0', one: '1', reset: 'R', tail: vec!['T', 't'] }
}

fn text(symbols: &[char]) -> String {
    symbols.iter().collect()
}

#[test]
fn bits_come_most_significant_first() {
    let bits: Vec<bool> = (0..8).map(|i| bit(0b1010_0001, i)).collect();
    assert_eq!(bits, vec![true, false, true, false, false, false, false, true]);
}

#[test]
fn a_pixel_is_green_then_red_then_blue() {
    let (symbols, result) = encoder().encode(&[Rgb8 { r: 0x80, g: 0x01, b: 0xff }], 100);
    assert_eq!(result, Ok(()));
    assert_eq!(text(&symbols), "R000000011000000011111111Tt");
}

#[test]
fn no_pixels_leave_the_pause() {
    let (symbols, result) = encoder().encode(&[], 2);
    assert_eq!((text(&symbols), result), ("Tt".to_string(), Ok(())));
    let (symbols, result) = encoder().encode(&[], 1);
    assert_eq!((text(&symbols), result), ("".to_string(), Err(NotEnoughSpace)));
}

#[test]
fn pixels_are_written_whole_or_not_at_all() {
    let pixels = [Rgb8 { r: 1, g: 2, b: 3 }, Rgb8 { r: 4, g: 5, b: 6 }];
    let (all, result) = encoder().encode(&pixels, 52);
    assert_eq!((all.len(), result), (52, Ok(())));
    for (free, len) in [(0, 0), (24, 0), (25, 25), (49, 25), (50, 50), (51, 50)] {
        let (symbols, result) = encoder().encode(&pixels, free);
        assert_eq!((symbols.len(), result), (len, Err(NotEnoughSpace)));
        assert_eq!(symbols[..], all[..len]);
    }
}

#[test]
fn different_colours_have_different_symbols() {
    let mut seen: Vec<Vec<char>> = Vec::new();
    for c in 0..=255u8 {
        let (symbols, _) = encoder().encode(&[Rgb8 { r: c, g: 0, b: 0 }], 27);
        assert!(!seen.contains(&symbols));
        seen.push(symbols);
    }
}

#[test]
fn each_kind_of_symbol_has_its_timing() {
    let timings = timings();
    assert_eq!(timings.zero, Timing::HighLow { high_nanos: 350, low_nanos: 800 });
    assert_eq!(timings.one, Timing::HighLow { high_nanos: 700, low_nanos: 600 });
    assert_eq!(timings.reset, Timing::Low { nanos: 281_000 });
    assert_eq!(timings.tail, vec![Timing::Low { nanos: 1_000_000 }]);
    let (line, result) = timings.encode(&[Rgb8 { r: 0, g: 0x80, b: 0 }], 26);
    assert_eq!(result, Ok(()));
    assert_eq!(line.len(), 26);
    assert_eq!(line[..3], [timings.reset, timings.one, timings.zero]);
    assert_eq!(line[25], timings.tail[0]);
}
