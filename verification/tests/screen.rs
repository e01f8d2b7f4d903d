use iron_kernel::framebuffer::{
    get_char_raster, Color, FrameBufferInfo, FrameBufferWriter, Glyph, PixelFormat, BACKUP_CHAR,
    BORDER_PADDING, CHAR_RASTER_HEIGHT, CHAR_RASTER_PIXELS, CHAR_RASTER_WIDTH, LETTER_SPACING,
    LINE_SPACING,
};
use iron_kernel::logger::{init_logger, Level, LevelFilter, LockedLogger};
use iron_kernel::shell::{Shell, CURSOR_INTENSITY, PROMPT, PROMPT_LEN};
use noto_sans_mono_bitmap::{get_raster, get_raster_width, FontWeight, RasterHeight};

fn info(width: usize, height: usize, stride: usize, format: PixelFormat, bpp: usize) -> FrameBufferInfo {
    FrameBufferInfo {
        byte_len: height * stride * bpp,
        width,
        height,
        pixel_format: format,
        bytes_per_pixel: bpp,
        stride,
    }
}

fn writer(width: usize, height: usize) -> FrameBufferWriter {
    let info = info(width, height, width + 4, PixelFormat::Rgb, 4);
    assert!(info.is_drawable(info.byte_len));
    FrameBufferWriter::new(vec![0xaa; info.byte_len], info)
}

fn pixel(fb: &FrameBufferWriter, stride: usize, x: usize, y: usize) -> [u8; 4] {
    let at = (y * stride + x) * 4;
    let bytes = fb.buffer();
    [bytes[at], bytes[at + 1], bytes[at + 2], bytes[at + 3]]
}

fn font(c: char) -> Vec<Vec<u8>> {
    let raster = get_raster(c, FontWeight::Regular, RasterHeight::Size16).expect("in the font");
    raster.raster().iter().map(|row| row.to_vec()).collect()
}

/// Checks that the cell at (x, y) shows the glyph of `c` in white.
fn shows(fb: &FrameBufferWriter, stride: usize, x: usize, y: usize, c: char) {
    let rows = font(c);
    assert_eq!(rows.len(), 16);
    for (dy, row) in rows.iter().enumerate() {
        assert_eq!(row.len(), 9);
        for (dx, intensity) in row.iter().enumerate() {
            let i = *intensity;
            assert_eq!(pixel(fb, stride, x + dx, y + dy), [i, i, i, 0], "pixel {dx},{dy} of {c:?}");
        }
    }
}

fn blank(fb: &FrameBufferWriter) -> bool {
    fb.buffer().iter().all(|byte| *byte == 0)
}

#[test]
fn font_constants_match_the_font() {
    assert_eq!(CHAR_RASTER_WIDTH, get_raster_width(FontWeight::Regular, RasterHeight::Size16));
    assert_eq!(CHAR_RASTER_HEIGHT, RasterHeight::Size16.val());
    assert_eq!(CHAR_RASTER_PIXELS, CHAR_RASTER_WIDTH * CHAR_RASTER_HEIGHT);
    assert_eq!(BACKUP_CHAR, '\u{fffd}');
    assert_eq!((LINE_SPACING, LETTER_SPACING, BORDER_PADDING), (2, 0, 1));
}

#[test]
fn colours_have_their_rgb() {
    assert_eq!(Color::Red.get_color_rgb(), [0xf4, 0x43, 0x36]);
    assert_eq!(Color::Yellow.get_color_rgb(), [0xff, 0xc1, 0x07]);
    assert_eq!(Color::Green.get_color_rgb(), [0x4c, 0xaf, 0x50]);
    assert_eq!(Color::Blue.get_color_rgb(), [0x03, 0xa9, 0xf4]);
    assert_eq!(Color::White.get_color_rgb(), [0xff, 0xff, 0xff]);
}

#[test]
fn pixels_follow_the_layout_and_the_intensity() {
    assert_eq!(Color::Red.get_color_pixel(PixelFormat::Rgb, 255), [0xf4, 0x43, 0x36, 0]);
    assert_eq!(Color::Red.get_color_pixel(PixelFormat::Bgr, 255), [0x36, 0x43, 0xf4, 0]);
    assert_eq!(Color::Red.get_color_pixel(PixelFormat::Rgb, 128), [122, 33, 27, 0]);
    assert_eq!(Color::Red.get_color_pixel(PixelFormat::Bgr, 128), [27, 33, 122, 0]);
    assert_eq!(Color::Red.get_color_pixel(PixelFormat::Rgb, 0), [0, 0, 0, 0]);
    assert_eq!(Color::White.get_color_pixel(PixelFormat::Rgb, 77), [77, 77, 77, 0]);
    assert_eq!(Color::Blue.get_color_pixel(PixelFormat::Rgb, 127), [1, 84, 121, 0]);
    assert_eq!(Color::Green.get_color_pixel(PixelFormat::U8, 0xab), [0x0a, 0, 0, 0]);
    assert_eq!(Color::Green.get_color_pixel(PixelFormat::U8, 0x0f), [0, 0, 0, 0]);
}

#[test]
fn geometry_is_checked() {
    let good = info(10, 17, 10, PixelFormat::Bgr, 3);
    assert!(good.is_drawable(good.byte_len));
    assert!(good.is_drawable(good.byte_len + 100));
    assert!(!good.is_drawable(good.byte_len - 1));
    assert!(!info(9, 17, 9, PixelFormat::Bgr, 3).is_drawable(10_000));
    assert!(!info(10, 16, 10, PixelFormat::Bgr, 3).is_drawable(10_000));
    assert!(!info(10, 17, 9, PixelFormat::Bgr, 3).is_drawable(10_000));
    assert!(!info(10, 17, 10, PixelFormat::Bgr, 0).is_drawable(10_000));
    assert!(!info(10, 17, 10, PixelFormat::Bgr, 5).is_drawable(10_000));
    let unknown = PixelFormat::Unknown { red_position: 0, green_position: 8, blue_position: 16 };
    assert!(!info(10, 17, 10, unknown, 3).is_drawable(10_000));
    let huge = FrameBufferInfo {
        byte_len: usize::MAX,
        width: 10,
        height: usize::MAX,
        pixel_format: PixelFormat::Rgb,
        bytes_per_pixel: 4,
        stride: usize::MAX,
    };
    assert!(!huge.is_drawable(usize::MAX));
}

#[test]
fn new_writer_clears_the_screen() {
    let fb = writer(30, 40);
    assert!(blank(&fb));
    assert_eq!((fb.x_pos(), fb.y_pos()), (1, 1));
    assert_eq!(fb.color(), Color::White);
    assert_eq!((fb.width(), fb.height()), (30, 40));
    assert_eq!(fb.buffer().len(), 40 * 34 * 4);
}

#[test]
fn write_pixel_sets_the_bytes_of_one_pixel() {
    let mut fb = writer(30, 40);
    fb.set_color(Color::Red);
    assert!(fb.has_pixel(2, 3));
    fb.write_pixel(2, 3, 255);
    let at = (3 * 34 + 2) * 4;
    for (i, byte) in fb.buffer().iter().enumerate() {
        let expected = match i.checked_sub(at) {
            Some(0) => 0xf4,
            Some(1) => 0x43,
            Some(2) => 0x36,
            _ => 0,
        };
        assert_eq!(*byte, expected, "byte {i}");
    }
    assert_eq!((fb.x_pos(), fb.y_pos()), (1, 1));
}

#[test]
fn write_pixel_uses_as_many_bytes_as_a_pixel_has() {
    let info = info(12, 20, 12, PixelFormat::Bgr, 3);
    let mut fb = FrameBufferWriter::new(vec![0; info.byte_len], info);
    fb.set_color(Color::Yellow);
    fb.write_pixel(11, 19, 255);
    let bytes = fb.buffer();
    let at = (19 * 12 + 11) * 3;
    assert_eq!(at + 3, bytes.len());
    assert_eq!(&bytes[at..], &[0x07, 0xc1, 0xff]);
    assert!(bytes[..at].iter().all(|b| *b == 0));
    let info = info_u8();
    let mut fb = FrameBufferWriter::new(vec![0; info.byte_len], info);
    fb.write_pixel(0, 0, 0xf0);
    assert_eq!(fb.buffer()[0], 0x0f);
    assert_eq!(fb.buffer()[1], 0);
}

fn info_u8() -> FrameBufferInfo {
    info(12, 20, 12, PixelFormat::U8, 1)
}

#[test]
fn pixels_and_cells_outside_the_buffer_are_seen() {
    let fb = writer(30, 40);
    // The stride is 34: columns up to 33 lie in the buffer.
    assert!(fb.has_pixel(33, 39));
    assert!(!fb.has_pixel(34, 39));
    assert!(fb.has_pixel(34, 38));
    assert!(!fb.has_pixel(0, 40));
    assert!(!fb.has_pixel(usize::MAX, 0));
    assert!(!fb.has_pixel(0, usize::MAX));
    assert!(fb.has_cell(25, 24));
    assert!(!fb.has_cell(26, 24));
    assert!(fb.has_cell(26, 23));
    assert!(!fb.has_cell(0, 25));
    assert!(!fb.has_cell(usize::MAX, 0));
    assert!(!fb.has_cell(0, usize::MAX - 3));
}

#[test]
fn glyph_comes_from_the_font() {
    let glyph = get_char_raster('A').expect("A is in the font");
    let rows = font('A');
    for n in 0..144 {
        assert_eq!(glyph.intensity(n), rows[n / 9][n % 9]);
    }
    // The glyph differs from that of another letter, and is not blank.
    let other = get_char_raster('B').unwrap();
    assert!((0..144).any(|n| glyph.intensity(n) != other.intensity(n)));
    assert!((0..144).any(|n| glyph.intensity(n) != 0));
}

#[test]
fn missing_character_gets_the_backup_glyph() {
    assert!(get_raster('\u{4e2d}', FontWeight::Regular, RasterHeight::Size16).is_none());
    let glyph = get_char_raster('\u{4e2d}').expect("backup glyph");
    let rows = font(BACKUP_CHAR);
    for n in 0..144 {
        assert_eq!(glyph.intensity(n), rows[n / 9][n % 9]);
    }
}

#[test]
fn glyph_wants_all_its_pixels() {
    assert!(Glyph::from_raster(vec![1; 144]).is_some());
    assert!(Glyph::from_raster(vec![1; 143]).is_none());
    assert!(Glyph::from_raster(vec![1; 145]).is_none());
    assert!(Glyph::from_raster(Vec::new()).is_none());
    let filled = Glyph::filled(9);
    assert!((0..144).all(|n| filled.intensity(n) == 9));
}

#[test]
fn write_char_draws_and_advances() {
    let mut fb = writer(30, 40);
    fb.write_char('A');
    assert_eq!((fb.x_pos(), fb.y_pos()), (10, 1));
    shows(&fb, 34, 1, 1, 'A');
    fb.write_char('b');
    assert_eq!((fb.x_pos(), fb.y_pos()), (19, 1));
    shows(&fb, 34, 1, 1, 'A');
    shows(&fb, 34, 10, 1, 'b');
    // Outside the two cells nothing was drawn.
    for y in 0..40 {
        for x in 0..34 {
            if !(1..19).contains(&x) || !(1..17).contains(&y) {
                assert_eq!(pixel(&fb, 34, x, y), [0, 0, 0, 0]);
            }
        }
    }
}

#[test]
fn write_char_wraps_at_the_right_edge() {
    let mut fb = writer(28, 40);
    fb.write_str("ab");
    assert_eq!((fb.x_pos(), fb.y_pos()), (19, 1));
    // 19 + 9 reaches the width of 28: the next character starts a line.
    fb.write_char('c');
    assert_eq!((fb.x_pos(), fb.y_pos()), (10, 19));
    shows(&fb, 32, 1, 1, 'a');
    shows(&fb, 32, 10, 1, 'b');
    shows(&fb, 32, 1, 19, 'c');
}

#[test]
fn write_char_stays_on_the_line_while_there_is_room() {
    let mut fb = writer(29, 40);
    fb.write_str("abc");
    assert_eq!((fb.x_pos(), fb.y_pos()), (28, 1));
    shows(&fb, 33, 19, 1, 'c');
    fb.write_char('d');
    assert_eq!((fb.x_pos(), fb.y_pos()), (10, 19));
}

#[test]
fn write_char_clears_a_full_screen() {
    let mut fb = writer(28, 40);
    fb.write_str("abcd");
    assert_eq!((fb.x_pos(), fb.y_pos()), (19, 19));
    // The next line would start at row 37, which leaves no room for a
    // character above row 40: the screen is cleared.
    fb.write_char('e');
    assert_eq!((fb.x_pos(), fb.y_pos()), (10, 1));
    shows(&fb, 32, 1, 1, 'e');
    for y in 17..40 {
        for x in 0..32 {
            assert_eq!(pixel(&fb, 32, x, y), [0, 0, 0, 0]);
        }
    }
}

#[test]
fn smallest_screen_holds_one_character() {
    let info = info(10, 17, 10, PixelFormat::Rgb, 4);
    let mut fb = FrameBufferWriter::new(vec![0; info.byte_len], info);
    fb.write_char('a');
    assert_eq!((fb.x_pos(), fb.y_pos()), (10, 1));
    shows(&fb, 10, 1, 1, 'a');
    fb.write_char('b');
    assert_eq!((fb.x_pos(), fb.y_pos()), (10, 1));
    shows(&fb, 10, 1, 1, 'b');
}

#[test]
fn line_feed_and_carriage_return_move_the_cursor() {
    let mut fb = writer(60, 60);
    fb.write_str("ab");
    fb.write_char('\r');
    assert_eq!((fb.x_pos(), fb.y_pos()), (1, 1));
    fb.write_str("xy");
    fb.write_char('\n');
    assert_eq!((fb.x_pos(), fb.y_pos()), (1, 19));
    fb.newline();
    assert_eq!((fb.x_pos(), fb.y_pos()), (1, 37));
    fb.write_char('z');
    assert_eq!(fb.x_pos(), 10);
    fb.carriage_return();
    assert_eq!((fb.x_pos(), fb.y_pos()), (1, 37));
    shows(&fb, 64, 1, 1, 'x');
    shows(&fb, 64, 10, 1, 'y');
    shows(&fb, 64, 1, 37, 'z');
}

#[test]
fn many_line_feeds_do_not_overflow() {
    let mut fb = writer(30, 40);
    for _ in 0..1000 {
        fb.write_char('\n');
    }
    assert_eq!((fb.x_pos(), fb.y_pos()), (1, 1 + 18 * 1000));
    fb.write_char('a');
    assert_eq!((fb.x_pos(), fb.y_pos()), (10, 1));
    shows(&fb, 34, 1, 1, 'a');
}

#[test]
fn write_str_writes_each_character() {
    let mut whole = writer(100, 60);
    let mut single = writer(100, 60);
    whole.write_str("Hi\nthere\u{4e2d}!\r?");
    for c in "Hi\nthere\u{4e2d}!\r?".chars() {
        single.write_char(c);
    }
    assert_eq!(whole.buffer(), single.buffer());
    assert_eq!((whole.x_pos(), whole.y_pos()), (single.x_pos(), single.y_pos()));
    assert_eq!((whole.x_pos(), whole.y_pos()), (10, 19));
    shows(&whole, 104, 1, 1, 'H');
    shows(&whole, 104, 10, 1, 'i');
    shows(&whole, 104, 1, 19, '?');
    shows(&whole, 104, 10, 19, 'h');
    shows(&whole, 104, 46, 19, BACKUP_CHAR);
    whole.write_str("");
    assert_eq!(whole.buffer(), single.buffer());
}

#[test]
fn colour_of_the_text_can_be_changed() {
    let mut fb = writer(30, 40);
    fb.set_color(Color::Green);
    assert_eq!(fb.color(), Color::Green);
    fb.write_char('A');
    let rows = font('A');
    for (dy, row) in rows.iter().enumerate() {
        for (dx, i) in row.iter().enumerate() {
            assert_eq!(
                pixel(&fb, 34, 1 + dx, 1 + dy),
                Color::Green.get_color_pixel(PixelFormat::Rgb, *i)
            );
        }
    }
}

#[test]
fn clear_erases_everything() {
    let mut fb = writer(30, 40);
    fb.write_str("ab\nc");
    assert!(!blank(&fb));
    fb.clear();
    assert!(blank(&fb));
    assert_eq!((fb.x_pos(), fb.y_pos()), (1, 1));
}

#[test]
fn back_space_erases_the_last_character() {
    let mut fb = writer(60, 40);
    fb.write_str("ab");
    assert_eq!(fb.x_pos(), 19);
    assert!(fb.can_back_space());
    fb.back_space();
    assert_eq!((fb.x_pos(), fb.y_pos()), (10, 1));
    shows(&fb, 64, 1, 1, 'a');
    for y in 0..40 {
        for x in 10..64 {
            assert_eq!(pixel(&fb, 64, x, y), [0, 0, 0, 0]);
        }
    }
    // One column from the left edge there is no room to step back.
    fb.back_space();
    assert_eq!((fb.x_pos(), fb.y_pos()), (1, 1));
    assert!(blank(&fb));
    assert!(!fb.can_back_space());
}

#[test]
fn back_space_at_the_left_edge_goes_up() {
    let mut fb = writer(60, 40);
    fb.write_str("a");
    fb.write_char('\n');
    // Step back from column 10 to column 1, then nine further to column 0
    // is not possible: bring the cursor to column 9 by hand.
    fb.write_char('b');
    fb.back_space();
    assert_eq!((fb.x_pos(), fb.y_pos()), (1, 19));
    assert!(!fb.can_back_space());
}

#[test]
fn logger_writes_to_the_sinks_it_was_made_for() {
    let both = LockedLogger::new(true, true);
    let output = both.log(Level::Info, "hello");
    assert_eq!(output.framebuffer.as_deref(), Some("INFO : hello\n"));
    assert_eq!(output.serial.as_deref(), Some("INFO : hello\n"));
    let serial = LockedLogger::new(false, true);
    let output = serial.log(Level::Error, "bad");
    assert_eq!(output.framebuffer, None);
    assert_eq!(output.serial.as_deref(), Some("ERROR: bad\n"));
    let screen = LockedLogger::new(true, false);
    let output = screen.log(Level::Warn, "");
    assert_eq!(output.framebuffer.as_deref(), Some("WARN : \n"));
    assert_eq!(output.serial, None);
    let neither = LockedLogger::new(false, false);
    let output = neither.log(Level::Trace, "x");
    assert_eq!((output.framebuffer, output.serial), (None, None));
    neither.flush();
}

#[test]
fn log_lines_name_the_level_in_five_characters() {
    assert_eq!(LockedLogger::format(Level::Error, "m"), "ERROR: m\n");
    assert_eq!(LockedLogger::format(Level::Warn, "m"), "WARN : m\n");
    assert_eq!(LockedLogger::format(Level::Info, "m"), "INFO : m\n");
    assert_eq!(LockedLogger::format(Level::Debug, "m"), "DEBUG: m\n");
    assert_eq!(LockedLogger::format(Level::Trace, "m"), "TRACE: m\n");
    assert_eq!(LockedLogger::format(Level::Info, "init'd gdt"), "INFO : init'd gdt\n");
}

#[test]
fn log_lines_are_what_the_log_crate_prints() {
    let pairs = [
        (Level::Error, log::Level::Error),
        (Level::Warn, log::Level::Warn),
        (Level::Info, log::Level::Info),
        (Level::Debug, log::Level::Debug),
        (Level::Trace, log::Level::Trace),
    ];
    for (level, theirs) in pairs {
        let expected = format!("{:5}: {}\n", theirs, "timer tick");
        assert_eq!(LockedLogger::format(level, "timer tick"), expected);
    }
}

#[test]
fn kernel_logger_lets_everything_through() {
    let (logger, filter) = init_logger();
    assert_eq!(filter, LevelFilter::Trace);
    for level in [Level::Error, Level::Warn, Level::Info, Level::Debug, Level::Trace] {
        assert!(logger.enabled(level));
    }
    let output = logger.log(Level::Debug, "lapic built successfully!");
    assert_eq!(output.framebuffer.as_deref(), Some("DEBUG: lapic built successfully!\n"));
    assert_eq!(output.serial.as_deref(), Some("DEBUG: lapic built successfully!\n"));
}

#[test]
fn shell_starts_with_the_prompt() {
    let mut fb = writer(100, 60);
    fb.write_str("old text\n");
    let shell = Shell::init(&mut fb);
    assert_eq!(PROMPT, "--> ");
    assert_eq!(PROMPT_LEN, PROMPT.len());
    assert_eq!((shell.cursor_x(), shell.cursor_y()), (13, 0));
    assert_eq!((fb.x_pos(), fb.y_pos()), (37, 1));
    shows(&fb, 104, 1, 1, '-');
    shows(&fb, 104, 10, 1, '-');
    shows(&fb, 104, 19, 1, '>');
    shows(&fb, 104, 28, 1, ' ');
    let mut expected = writer(100, 60);
    expected.write_str("--> ");
    assert_eq!(fb.buffer(), expected.buffer());
}

#[test]
fn shell_cursor_blinks() {
    let mut fb = writer(100, 60);
    let _ = Shell::init(&mut fb);
    assert!(fb.has_cell(fb.x_pos(), fb.y_pos()));
    assert_eq!(CURSOR_INTENSITY, 127);
    Shell::update(&mut fb);
    assert_eq!(fb.color(), Color::Blue);
    assert_eq!((fb.x_pos(), fb.y_pos()), (37, 1));
    for dy in 0..16 {
        for dx in 0..9 {
            assert_eq!(pixel(&fb, 104, 37 + dx, 1 + dy), [1, 84, 121, 0]);
        }
    }
    shows(&fb, 104, 19, 1, '>');
    Shell::update(&mut fb);
    assert_eq!(fb.color(), Color::White);
    for dy in 0..16 {
        for dx in 0..9 {
            assert_eq!(pixel(&fb, 104, 37 + dx, 1 + dy), [127, 127, 127, 0]);
        }
    }
    Shell::update(&mut fb);
    assert_eq!(fb.color(), Color::Blue);
    // From any colour but white the cursor turns white.
    fb.set_color(Color::Red);
    Shell::update(&mut fb);
    assert_eq!(fb.color(), Color::White);
}
