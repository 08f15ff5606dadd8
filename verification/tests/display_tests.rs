use tihle::display::{expand_byte, pack_byte, Display, ScrollDirection};

#[test]
fn expand_byte_expands() {
    for x in 0..=255u8 {
        let expanded = expand_byte(x).to_le_bytes();
        for bit in 0..8 {
            let expected = (x >> bit) & 1;
            assert_eq!(expected, expanded[bit], "Expanded {:08b} -> {:?}", x, expanded);
        }
    }
}

#[test]
fn expand_then_pack_is_lossless() {
    for x in 0..=255u8 {
        assert_eq!(x, pack_byte(expand_byte(x)));
    }
}

#[test]
fn expand_known_values() {
    assert_eq!(expand_byte(0x00), 0);
    assert_eq!(expand_byte(0xFF), 0x0101010101010101);
    assert_eq!(expand_byte(0x01), 0x0000000000000001);
    assert_eq!(expand_byte(0x80), 0x0100000000000000);
}

/// Fill the screen so that every pixel of row `i` holds bit `7 - (x % 8)` of
/// `i`, making rows tell their index.
fn setup_scrolling() -> Display {
    let mut display = Display::new();
    let mut image = Vec::new();
    for row in 0..64u8 {
        for _ in 0..12 {
            image.push(row);
        }
    }
    display.blit_fullscreen(&image);
    display
}

fn row_matches(display: &Display, y: u8, value: u8) -> bool {
    (0..96u8).all(|x| display.get_pixel(x, y) == (value >> (7 - (x % 8))) & 1)
}

#[test]
fn scroll_up() {
    for distance in [0usize, 1, 7, 8, 63, 64, 100] {
        let mut display = setup_scrolling();
        display.scroll(ScrollDirection::Up, distance);
        let clamped = distance.min(64);
        for i in 0..(64 - clamped) {
            assert!(
                row_matches(&display, i as u8, (i + clamped) as u8),
                "scroll up {}: row {} should hold old row {}",
                distance,
                i,
                i + clamped
            );
        }
        for i in (64 - clamped)..64 {
            assert!(
                (0..96u8).all(|x| display.get_pixel(x, i as u8) == 0),
                "scroll up {}: row {} should be blank",
                distance,
                i
            );
        }
    }
}

#[test]
fn scroll_down() {
    for distance in [0usize, 1, 7, 8, 63, 64, 100] {
        let mut display = setup_scrolling();
        display.scroll(ScrollDirection::Down, distance);
        let clamped = distance.min(64);
        for i in clamped..64 {
            assert!(
                row_matches(&display, i as u8, (i - clamped) as u8),
                "scroll down {}: row {} should hold old row {}",
                distance,
                i,
                i - clamped
            );
        }
        for i in 0..clamped {
            assert!(
                (0..96u8).all(|x| display.get_pixel(x, i as u8) == 0),
                "scroll down {}: row {} should be blank",
                distance,
                i
            );
        }
    }
}

#[test]
fn data_write_scatters_bits() {
    let mut display = Display::new();
    // 8-bit word mode, X-increment is the power-on state; write one byte to
    // the first word of row 0.
    display.write_data(0xA5);
    for bit in 0..8u8 {
        assert_eq!(
            display.get_pixel(bit, 0),
            (0xA5 >> (7 - bit)) & 1,
            "pixel {} of 0xA5",
            bit
        );
    }
}

#[test]
fn dummy_read_after_address_write() {
    let mut display = Display::new();
    // Y-increment mode so data accesses walk along a row.
    display.write_control(0x07);
    // The fresh controller still has its power-on dummy read pending; clear
    // it with one read.
    display.read_data();
    // Write two words, values A then B, at Y=0 and Y=1 of row 0.
    display.write_control(0x20); // Y := 0
    display.read_data(); // dummy read from the address write
    display.write_data(0xAB);
    display.write_data(0xCD);
    // Set the Y address back to 0: the next read must be a dummy that does
    // not move the address, so two reads in a row see the same word, and
    // only the third sees the next one.
    display.write_control(0x20);
    let first = display.read_data();
    let second = display.read_data();
    let third = display.read_data();
    assert_eq!(first, 0xAB);
    assert_eq!(second, 0xAB);
    assert_eq!(third, 0xCD);
}

#[test]
fn read_status_reports_modes() {
    let mut display = Display::new();
    // Power-on: 8-bit words, X-increment: word-size bit, display-on bit,
    // X axis, incrementing.
    assert_eq!(display.read_status(), 0x61);
    display.write_control(0x00); // 6-bit words
    display.write_control(0x06); // Y-decrement
    assert_eq!(display.read_status(), 0x22);
}

#[test]
fn out_of_range_word_reads_zero() {
    let mut display = Display::new();
    display.write_control(0x00); // 6-bit mode: Y addresses up to 19
    display.write_control(0x20 | 19); // Y := 19; word 19 starts at column 114
    let value = display.read_data();
    assert_eq!(value, 0);
}

#[test]
fn blit_clips_at_right_edge() {
    let mut display = Display::new();
    display.blit_8bit_over(92, 0, &[0xFF], 8);
    for x in 92..96u8 {
        assert_eq!(display.get_pixel(x, 0), 1);
    }
    // Nothing wrapped to the next row.
    for x in 0..8u8 {
        assert_eq!(display.get_pixel(x, 1), 0);
    }
}

#[test]
fn invert_pixel_toggles() {
    let mut display = Display::new();
    assert_eq!(display.get_pixel(10, 20), 0);
    display.invert_pixel(10, 20);
    assert_eq!(display.get_pixel(10, 20), 1);
    display.invert_pixel(10, 20);
    assert_eq!(display.get_pixel(10, 20), 0);
}

#[test]
fn clear_blanks_everything() {
    let mut display = setup_scrolling();
    display.clear();
    assert!(display.get_buffer().iter().all(|&b| b == 0));
}
