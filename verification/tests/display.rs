use calc_os::display::Display;
use calc_os::frame::{
    can_draw, Alignment, Color, Pixel, Rectangle, FRAME_BYTES, HEIGHT, WIDTH,
};
use calc_os::hardware::DisplayDriver;
use embedded_graphics::mono_font::ascii::FONT_6X13;
use embedded_graphics::mono_font::MonoTextStyle;
use embedded_graphics::prelude::{DrawTarget, Point};
use embedded_graphics::text::Text;
use embedded_graphics::Drawable;
use epd_waveshare::epd2in9_v2::Display2in9;
use epd_waveshare::graphics::DisplayRotation;

/// The frame that the panel's own buffer holds after the surface was cleared
/// to white and a text drawn on it.
fn reference(text: &str, x: i32, y: i32, alignment: embedded_graphics::text::Alignment) -> Vec<u8> {
    let mut fb = Display2in9::default();
    fb.set_rotation(DisplayRotation::Rotate90);
    let _ = fb.clear(epd_waveshare::color::Color::White);
    let style = MonoTextStyle::new(&FONT_6X13, epd_waveshare::color::Color::Black);
    let _ = Text::with_alignment(text, Point::new(x, y), style, alignment).draw(&mut fb);
    fb.buffer().to_vec()
}

fn black_points(display: &Display) -> usize {
    let mut count = 0;
    for x in 0..296 {
        for y in 0..128 {
            if display.pixel(x, y) == Some(Color::Black) {
                count += 1;
            }
        }
    }
    count
}

#[test]
fn the_surface_is_296_by_128() {
    let display = Display::new();
    assert_eq!(display.bounding_box(), Rectangle { x: 0, y: 0, width: 296, height: 128 });
    assert_eq!((WIDTH, HEIGHT), (296, 128));
    assert_eq!(FRAME_BYTES, 296 * 128 / 8);
    assert_eq!(display.frame().len(), 4736);
    assert_eq!(display.drawn().len(), 4736);
}

#[test]
fn the_bounding_box_stays_the_same() {
    let mut display = Display::new();
    let before = display.bounding_box();
    display.clear(Color::White);
    display.draw_text("D1", 0, 100, Alignment::Left);
    display.update();
    display.refresh();
    assert_eq!(display.bounding_box(), before);
}

#[test]
fn a_new_display_is_black_and_uncommitted() {
    let display = Display::new();
    assert!(display.frame().iter().all(|&b| b == 0x00));
    assert!(display.drawn().iter().all(|&b| b == 0x00));
    assert_eq!(display.commits(), 0);
    assert_eq!(display.refreshes(), 0);
    assert_eq!(display.pixel(0, 0), Some(Color::Black));
}

#[test]
fn clear_fills_the_surface() {
    let mut display = Display::new();
    display.clear(Color::White);
    assert!(display.drawn().iter().all(|&b| b == 0xFF));
    display.clear(Color::Black);
    assert!(display.drawn().iter().all(|&b| b == 0x00));
}

#[test]
fn drawing_alone_never_shows() {
    let mut display = Display::new();
    display.clear(Color::White);
    display.draw_text("D7", 10, 50, Alignment::Left);
    display.draw_iter(&[Pixel { x: 3, y: 3, color: Color::Black }]);
    assert!(display.frame().iter().all(|&b| b == 0x00));
    assert_eq!(display.commits(), 0);
    display.update();
    assert_eq!(display.frame(), display.drawn());
    assert_eq!(display.commits(), 1);
    assert_eq!(display.pixel(3, 3), Some(Color::Black));
    assert_eq!(display.pixel(4, 3), Some(Color::White));
}

#[test]
fn update_commits_the_surface_and_leaves_it_as_drawn() {
    let mut display = Display::new();
    display.clear(Color::White);
    let drawn = display.drawn().clone();
    display.update();
    assert_eq!(display.drawn(), &drawn);
    assert_eq!(display.frame(), &drawn);
    display.clear(Color::Black);
    assert_eq!(display.frame(), &drawn);
    display.update();
    assert!(display.frame().iter().all(|&b| b == 0x00));
    assert_eq!(display.commits(), 2);
    assert_eq!(display.refreshes(), 0);
}

#[test]
fn refresh_runs_a_cycle_and_is_no_commit() {
    let mut display = Display::new();
    display.clear(Color::White);
    display.refresh();
    assert!(display.frame().iter().all(|&b| b == 0xFF));
    assert!(display.drawn().iter().all(|&b| b == 0xFF));
    assert_eq!(display.refreshes(), 1);
    assert_eq!(display.commits(), 0);
    display.refresh();
    display.update();
    assert_eq!(display.refreshes(), 2);
    assert_eq!(display.commits(), 1);
}

#[test]
fn a_pixel_lands_on_its_bit_of_the_frame() {
    let mut display = Display::new();
    display.draw_iter(&[Pixel { x: 0, y: 0, color: Color::White }]);
    let mut expected = vec![0u8; 4736];
    // Panel line 0, last pixel of the line: byte 15, lowest bit.
    expected[15] = 0x01;
    assert_eq!(display.drawn(), &expected);

    let mut display = Display::new();
    display.draw_iter(&[Pixel { x: 0, y: 127, color: Color::White }]);
    let mut expected = vec![0u8; 4736];
    expected[0] = 0x80;
    assert_eq!(display.drawn(), &expected);

    let mut display = Display::new();
    display.draw_iter(&[Pixel { x: 295, y: 127, color: Color::White }]);
    let mut expected = vec![0u8; 4736];
    expected[295 * 16] = 0x80;
    assert_eq!(display.drawn(), &expected);

    let mut display = Display::new();
    display.draw_iter(&[Pixel { x: 2, y: 100, color: Color::White }]);
    let mut expected = vec![0u8; 4736];
    // 127 - 100 = 27: byte 3 of line 2, bit 3 from the top.
    expected[2 * 16 + 3] = 0x10;
    assert_eq!(display.drawn(), &expected);
}

#[test]
fn a_black_pixel_clears_its_bit_only() {
    let mut display = Display::new();
    display.clear(Color::White);
    display.draw_iter(&[Pixel { x: 1, y: 126, color: Color::Black }]);
    let mut expected = vec![0xFFu8; 4736];
    expected[16] = 0xBF;
    assert_eq!(display.drawn(), &expected);
}

#[test]
fn pixels_are_plotted_in_turn() {
    let mut display = Display::new();
    display.draw_iter(&[
        Pixel { x: 5, y: 5, color: Color::White },
        Pixel { x: 5, y: 6, color: Color::White },
        Pixel { x: 5, y: 5, color: Color::Black },
    ]);
    display.update();
    assert_eq!(display.pixel(5, 5), Some(Color::Black));
    assert_eq!(display.pixel(5, 6), Some(Color::White));
    assert_eq!(display.pixel(5, 7), Some(Color::Black));
    display.draw_iter(&[]);
    display.update();
    assert_eq!(display.pixel(5, 6), Some(Color::White));
}

#[test]
fn pixels_off_the_surface_are_passed_over() {
    let mut display = Display::new();
    display.draw_iter(&[
        Pixel { x: -1, y: 0, color: Color::White },
        Pixel { x: 0, y: -1, color: Color::White },
        Pixel { x: 296, y: 0, color: Color::White },
        Pixel { x: 0, y: 128, color: Color::White },
        Pixel { x: i32::MIN, y: i32::MIN, color: Color::White },
        Pixel { x: i32::MAX, y: i32::MAX, color: Color::White },
        Pixel { x: 0, y: i32::MIN, color: Color::White },
    ]);
    assert!(display.drawn().iter().all(|&b| b == 0x00));
}

#[test]
fn pixel_reads_points_of_the_surface_only() {
    let display = Display::new();
    assert_eq!(display.pixel(-1, 0), None);
    assert_eq!(display.pixel(0, -1), None);
    assert_eq!(display.pixel(296, 0), None);
    assert_eq!(display.pixel(0, 128), None);
    assert_eq!(display.pixel(i32::MIN, i32::MAX), None);
    assert_eq!(display.pixel(295, 127), Some(Color::Black));
}

#[test]
fn every_point_can_be_plotted_and_read_back() {
    let mut display = Display::new();
    let mut pixels = Vec::new();
    for x in 0..296 {
        for y in 0..128 {
            if (x + 2 * y) % 3 == 0 {
                pixels.push(Pixel { x, y, color: Color::White });
            }
        }
    }
    display.draw_iter(&pixels);
    display.update();
    for x in 0..296 {
        for y in 0..128 {
            let expected = if (x + 2 * y) % 3 == 0 { Color::White } else { Color::Black };
            assert_eq!(display.pixel(x, y), Some(expected), "point ({x}, {y})");
        }
    }
}

#[test]
fn text_is_drawn_as_the_panel_draws_it() {
    let mut display = Display::new();
    display.clear(Color::White);
    display.draw_text("D0D1", 0, 100, Alignment::Left);
    assert_eq!(
        display.drawn(),
        &reference("D0D1", 0, 100, embedded_graphics::text::Alignment::Left)
    );
    assert!(display.drawn().iter().any(|&b| b != 0xFF));
}

#[test]
fn centred_text_is_drawn_as_the_panel_draws_it() {
    let mut display = Display::new();
    display.clear(Color::White);
    display.draw_text("Memory: 5K/1048K", 148, 64, Alignment::Center);
    assert_eq!(
        display.drawn(),
        &reference("Memory: 5K/1048K", 148, 64, embedded_graphics::text::Alignment::Center)
    );
    assert_ne!(
        display.drawn(),
        &reference("Memory: 5K/1048K", 148, 64, embedded_graphics::text::Alignment::Left)
    );
}

#[test]
fn text_is_drawn_over_what_is_there() {
    let mut display = Display::new();
    display.clear(Color::White);
    display.draw_text("Left", 20, 30, Alignment::Left);
    let one = display.drawn().clone();
    display.draw_text("Right", 20, 90, Alignment::Left);
    let both = display.drawn().clone();
    let other = reference("Right", 20, 90, embedded_graphics::text::Alignment::Left);
    let merged: Vec<u8> = one.iter().zip(other.iter()).map(|(a, b)| a & b).collect();
    assert_eq!(both, merged);
}

#[test]
fn text_leaves_the_rest_of_the_surface_alone() {
    let mut display = Display::new();
    display.clear(Color::White);
    display.draw_text("Eq", 100, 60, Alignment::Left);
    display.update();
    let black = black_points(&display);
    assert!(black > 0);
    assert!(black < 2 * 6 * 13);
    for x in 0..296 {
        for y in 0..128 {
            if !(100..112).contains(&x) || !(47..64).contains(&y) {
                assert_eq!(display.pixel(x, y), Some(Color::White), "point ({x}, {y})");
            }
        }
    }
}

#[test]
fn empty_text_draws_nothing() {
    let mut display = Display::new();
    display.clear(Color::White);
    display.draw_text("", 0, 100, Alignment::Left);
    assert!(display.drawn().iter().all(|&b| b == 0xFF));
}

#[test]
fn text_beyond_the_limits_is_not_drawn() {
    let mut display = Display::new();
    display.clear(Color::White);
    display.draw_text("D1", 32_768, 100, Alignment::Left);
    display.draw_text("D1", 0, -32_768, Alignment::Left);
    display.draw_text("D1", i32::MIN, i32::MAX, Alignment::Center);
    display.draw_text(&"8".repeat(1025), 0, 100, Alignment::Left);
    assert!(display.drawn().iter().all(|&b| b == 0xFF));
    display.draw_text(&"8".repeat(1024), -6000, 100, Alignment::Left);
    assert!(display.drawn().iter().any(|&b| b != 0xFF));
}

#[test]
fn text_at_the_limits_is_drawn_off_the_surface() {
    let mut display = Display::new();
    display.clear(Color::White);
    display.draw_text("D1", 32_767, 32_767, Alignment::Left);
    display.draw_text("D1", -32_767, -32_767, Alignment::Center);
    assert!(display.drawn().iter().all(|&b| b == 0xFF));
}

#[test]
fn can_draw_tells_what_one_call_draws() {
    assert!(can_draw("", 0, 0));
    assert!(can_draw("D1", 32_767, -32_767));
    assert!(can_draw(&"8".repeat(1024), 0, 100));
    assert!(!can_draw(&"8".repeat(1025), 0, 100));
    assert!(!can_draw("D1", 32_768, 0));
    assert!(!can_draw("D1", 0, -32_768));
    assert!(!can_draw("D1", i32::MIN, i32::MAX));
    // The limit is in bytes: 512 letters of two bytes fit, 513 do not.
    assert!(can_draw(&"é".repeat(512), 0, 0));
    assert!(!can_draw(&"é".repeat(513), 0, 0));
}
