//! Text on a pixel framebuffer: colours, glyphs, and the writer that keeps
//! the cursor.

use noto_sans_mono_bitmap::{get_raster, FontWeight, RasterHeight};
use vstd::prelude::*;

verus! {

/// Additional vertical space between lines.
pub const LINE_SPACING: usize = 2;

/// Additional horizontal space between characters.
pub const LETTER_SPACING: usize = 0;

/// Padding from the border, so that text does not touch it.
pub const BORDER_PADDING: usize = 1;

/// The height in pixels of the raster of each character.
pub const CHAR_RASTER_HEIGHT: usize = 16;

/// The width in pixels of the raster of each character.
pub const CHAR_RASTER_WIDTH: usize = 9;

/// The number of pixels in the raster of a character.
pub const CHAR_RASTER_PIXELS: usize = 144;

/// The character that is drawn in place of one that the font lacks.
pub const BACKUP_CHAR: char = '\u{FFFD}';

/// How the bytes of a pixel are laid out.
#[derive(Clone, Copy, Debug, PartialEq, Eq, Structural)]
pub enum PixelFormat {
    /// Red, green, blue.
    Rgb,
    /// Blue, green, red.
    Bgr,
    /// One byte of grey.
    U8,
    /// A layout that the writer cannot draw in.
    Unknown { red_position: u8, green_position: u8, blue_position: u8 },
}

/// The geometry of a framebuffer.
#[derive(Clone, Copy, Debug, PartialEq, Eq, Structural)]
pub struct FrameBufferInfo {
    /// The size of the buffer in bytes.
    pub byte_len: usize,
    /// The number of pixels in a row that are shown.
    pub width: usize,
    /// The number of rows.
    pub height: usize,
    pub pixel_format: PixelFormat,
    /// The number of bytes that a pixel takes.
    pub bytes_per_pixel: usize,
    /// The number of pixels from the start of a row to the start of the
    /// next.
    pub stride: usize,
}

/// The colours that text is drawn in.
#[derive(Clone, Copy, Debug, PartialEq, Eq, Structural)]
pub enum Color {
    Red,
    Yellow,
    Green,
    Blue,
    White,
}

/// The brightness `channel` of a colour at the intensity `intensity`: the
/// full channel at 255, and nothing at 0.
pub open spec fn scaled(channel: u8, intensity: u8) -> u8 {
    (channel * intensity / 255) as u8
}

impl Color {
    /// The red, green and blue of the colour at full intensity.
    pub open spec fn rgb(self) -> Seq<u8> {
        match self {
            Color::Red => seq![0xf4u8, 0x43u8, 0x36u8],
            Color::Yellow => seq![0xffu8, 0xc1u8, 0x07u8],
            Color::Green => seq![0x4cu8, 0xafu8, 0x50u8],
            Color::Blue => seq![0x03u8, 0xa9u8, 0xf4u8],
            Color::White => seq![0xffu8, 0xffu8, 0xffu8],
        }
    }

    /// The four bytes of a pixel of the colour at the intensity `intensity`
    /// in the layout `format`. A layout of fewer bytes uses the first ones.
    pub open spec fn pixel(self, format: PixelFormat, intensity: u8) -> Seq<u8> {
        let r = scaled(self.rgb()[0], intensity);
        let g = scaled(self.rgb()[1], intensity);
        let b = scaled(self.rgb()[2], intensity);
        match format {
            PixelFormat::Rgb => seq![r, g, b, 0u8],
            PixelFormat::Bgr => seq![b, g, r, 0u8],
            _ => seq![intensity >> 4, 0u8, 0u8, 0u8],
        }
    }

    /// The red, green and blue of the colour at full intensity.
    pub fn get_color_rgb(&self) -> (rgb: [u8; 3])
        ensures
            rgb@ == self.rgb(),
    {
        let rgb: [u8; 3] = match self {
            Color::Red => [0xf4, 0x43, 0x36],
            Color::Yellow => [0xff, 0xc1, 0x07],
            Color::Green => [0x4c, 0xaf, 0x50],
            Color::Blue => [0x03, 0xa9, 0xf4],
            Color::White => [0xff, 0xff, 0xff],
        };
        assert(rgb@ =~= self.rgb());
        rgb
    }

    /// The four bytes of a pixel of the colour at the intensity `intensity`
    /// in the layout `pixel_format`, which must be one that can be drawn in.
    pub fn get_color_pixel(&self, pixel_format: PixelFormat, intensity: u8) -> (pixel: [u8; 4])
        requires
            !(pixel_format is Unknown),
        ensures
            pixel@ == self.pixel(pixel_format, intensity),
    {
        let rgb: [u8; 3] = self.get_color_rgb();
        let r: u8 = scale(rgb[0], intensity);
        let g: u8 = scale(rgb[1], intensity);
        let b: u8 = scale(rgb[2], intensity);
        let pixel: [u8; 4] = match pixel_format {
            PixelFormat::Rgb => [r, g, b, 0],
            PixelFormat::Bgr => [b, g, r, 0],
            _ => [intensity >> 4, 0, 0, 0],
        };
        assert(pixel@ =~= self.pixel(pixel_format, intensity));
        pixel
    }
}

/// The brightness `channel` at the intensity `intensity`.
fn scale(channel: u8, intensity: u8) -> (value: u8)
    ensures
        value == scaled(channel, intensity),
{
    assert(channel * intensity <= 255 * 255) by (nonlinear_arith)
        requires
            channel <= 255,
            intensity <= 255,
    ;
    let product: u32 = channel as u32 * intensity as u32;
    (product / 0xff) as u8
}

/// What the font holds for the character `c`: the intensities of its
/// pixels, row after row from the top, or nothing if the font lacks the
/// character. This is the result of the font library's look-up, which is a
/// table of the library and is not restated here.
pub uninterp spec fn glyph_raster(c: char) -> Option<Seq<u8>>;

/// Looks the character `c` up in the font, in regular weight at the height
/// of sixteen pixels.
///
/// Trusted: calls `noto_sans_mono_bitmap::get_raster` and lays the rows it
/// returns one after the other. The contract only gives the result its
/// name.
#[verifier::external_body]
fn raster_of(c: char) -> (raster: Option<Vec<u8>>)
    ensures
        match raster {
            Some(pixels) => glyph_raster(c) == Some(pixels@),
            None => glyph_raster(c) is None,
        },
{
    get_raster(c, FontWeight::Regular, RasterHeight::Size16).map(
        |found| found.raster().iter().flat_map(|row| row.iter().copied()).collect(),
    )
}

/// The raster of one character: [`CHAR_RASTER_HEIGHT`] rows of
/// [`CHAR_RASTER_WIDTH`] intensities, row after row from the top.
#[derive(Debug)]
pub struct Glyph {
    raster: Vec<u8>,
}

impl Glyph {
    #[verifier::type_invariant]
    spec fn complete(&self) -> bool {
        self.raster@.len() == CHAR_RASTER_PIXELS
    }

    /// The intensities, row after row.
    pub closed spec fn view(&self) -> Seq<u8> {
        self.raster@
    }

    /// The glyph with the intensities `raster`, if they are as many as a
    /// glyph has pixels.
    pub fn from_raster(raster: Vec<u8>) -> (glyph: Option<Glyph>)
        ensures
            glyph is Some <==> raster@.len() == CHAR_RASTER_PIXELS,
            glyph is Some ==> glyph->0@ == raster@,
    {
        if raster.len() == CHAR_RASTER_PIXELS {
            Some(Glyph { raster })
        } else {
            None
        }
    }

    /// The glyph whose pixels all have the intensity `intensity`.
    pub fn filled(intensity: u8) -> (glyph: Glyph)
        ensures
            glyph@ == Seq::new(CHAR_RASTER_PIXELS as nat, |i: int| intensity),
    {
        let mut raster: Vec<u8> = Vec::new();
        let mut i: usize = 0;
        while i < CHAR_RASTER_PIXELS
            invariant
                i <= CHAR_RASTER_PIXELS,
                raster@.len() == i,
                forall|k: int| 0 <= k < i ==> raster@[k] == intensity,
            decreases CHAR_RASTER_PIXELS - i,
        {
            raster.push(intensity);
            i = i + 1;
        }
        assert(raster@ =~= Seq::new(CHAR_RASTER_PIXELS as nat, |i: int| intensity));
        Glyph { raster }
    }

    /// The intensity of pixel `i`, counted row after row.
    pub fn intensity(&self, i: usize) -> (value: u8)
        requires
            i < CHAR_RASTER_PIXELS,
        ensures
            self@.len() == CHAR_RASTER_PIXELS,
            value == self@[i as int],
    {
        proof {
            use_type_invariant(self);
        }
        self.raster[i]
    }
}

/// A raster is usable if the font has it and it has the size of a glyph.
pub open spec fn usable_raster(raster: Option<Seq<u8>>) -> bool {
    raster is Some && raster->0.len() == CHAR_RASTER_PIXELS
}

/// The raster that is drawn for the character `c`: its own if the font has
/// a usable one, else that of [`BACKUP_CHAR`] if that is usable, else none.
pub open spec fn resolved_raster(c: char) -> Option<Seq<u8>> {
    if usable_raster(glyph_raster(c)) {
        glyph_raster(c)
    } else if usable_raster(glyph_raster(BACKUP_CHAR)) {
        glyph_raster(BACKUP_CHAR)
    } else {
        None
    }
}

/// Picks the glyph to draw, given what the font holds for the character
/// itself and for [`BACKUP_CHAR`].
pub fn choose_glyph(own: Option<Vec<u8>>, backup: Option<Vec<u8>>) -> (glyph: Option<Glyph>)
    ensures
        match glyph {
            Some(g) => {
                &&& own is Some && own->0@.len() == CHAR_RASTER_PIXELS ==> g@ == own->0@
                &&& !(own is Some && own->0@.len() == CHAR_RASTER_PIXELS) ==> backup is Some
                    && g@ == backup->0@
                &&& g@.len() == CHAR_RASTER_PIXELS
            },
            None => {
                &&& !(own is Some && own->0@.len() == CHAR_RASTER_PIXELS)
                &&& !(backup is Some && backup->0@.len() == CHAR_RASTER_PIXELS)
            },
        },
{
    match own {
        Some(raster) => {
            if raster.len() == CHAR_RASTER_PIXELS {
                return Glyph::from_raster(raster);
            }
        },
        None => {},
    }
    match backup {
        Some(raster) => Glyph::from_raster(raster),
        None => None,
    }
}

/// The glyph of the character `c`, or that of [`BACKUP_CHAR`] if the font
/// lacks `c`.
pub fn get_char_raster(c: char) -> (glyph: Option<Glyph>)
    ensures
        match glyph {
            Some(g) => resolved_raster(c) == Some(g@),
            None => resolved_raster(c) is None,
        },
{
    let own: Option<Vec<u8>> = raster_of(c);
    let backup: Option<Vec<u8>> = raster_of(BACKUP_CHAR);
    choose_glyph(own, backup)
}

/// Whether a buffer of `len` bytes with the geometry `info` can be written
/// to: the layout of its pixels is known, it holds every row, and it has
/// room for one character inside the border.
pub open spec fn drawable(len: int, info: FrameBufferInfo) -> bool {
    &&& !(info.pixel_format is Unknown)
    &&& 1 <= info.bytes_per_pixel <= 4
    &&& info.width >= BORDER_PADDING + CHAR_RASTER_WIDTH
    &&& info.height >= BORDER_PADDING + CHAR_RASTER_HEIGHT
    &&& info.stride >= info.width
    &&& info.height * info.stride * info.bytes_per_pixel <= len
}

/// The index of the first byte of the pixel in column `x` of row `y`.
pub open spec fn pixel_offset(info: FrameBufferInfo, x: int, y: int) -> int {
    (y * info.stride + x) * info.bytes_per_pixel
}

/// Whether the bytes of the pixel in column `x` of row `y` lie inside a
/// buffer of `len` bytes.
pub open spec fn pixel_in_bounds(len: int, info: FrameBufferInfo, x: int, y: int) -> bool {
    x >= 0 && y >= 0 && pixel_offset(info, x, y) + info.bytes_per_pixel <= len
}

/// Whether the bytes of every pixel of the character cell whose top left
/// corner is in column `x` of row `y` lie inside a buffer of `len` bytes.
pub open spec fn cell_in_bounds(len: int, info: FrameBufferInfo, x: int, y: int) -> bool {
    pixel_in_bounds(len, info, x + CHAR_RASTER_WIDTH - 1, y + CHAR_RASTER_HEIGHT - 1)
}

/// The buffer `buffer` after the pixel in column `x` of row `y` was set to
/// the bytes `bytes`.
pub open spec fn with_pixel(
    buffer: Seq<u8>,
    info: FrameBufferInfo,
    x: int,
    y: int,
    bytes: Seq<u8>,
) -> Seq<u8> {
    Seq::new(
        buffer.len(),
        |i: int|
            if pixel_offset(info, x, y) <= i < pixel_offset(info, x, y) + info.bytes_per_pixel {
                bytes[i - pixel_offset(info, x, y)]
            } else {
                buffer[i]
            },
    )
}

/// The buffer `buffer` after the first `count` pixels of the raster
/// `raster` were drawn, in the colour `color`, into the character cell whose
/// top left corner is in column `x` of row `y`.
pub open spec fn with_raster(
    buffer: Seq<u8>,
    info: FrameBufferInfo,
    color: Color,
    x: int,
    y: int,
    raster: Seq<u8>,
    count: nat,
) -> Seq<u8>
    decreases count,
{
    if count == 0 {
        buffer
    } else {
        let n = count - 1;
        with_pixel(
            with_raster(buffer, info, color, x, y, raster, n as nat),
            info,
            x + n % (CHAR_RASTER_WIDTH as int),
            y + n / (CHAR_RASTER_WIDTH as int),
            color.pixel(info.pixel_format, raster[n]),
        )
    }
}

/// What is on the screen, and where the next character goes.
pub struct Screen {
    pub pixels: Seq<u8>,
    pub x_pos: usize,
    pub y_pos: usize,
    pub color: Color,
}

/// The row position `y` moved down by one line, but not past the largest
/// number.
pub open spec fn next_line(y: usize) -> usize {
    if y + CHAR_RASTER_HEIGHT + LINE_SPACING <= usize::MAX {
        (y + CHAR_RASTER_HEIGHT + LINE_SPACING) as usize
    } else {
        usize::MAX
    }
}

impl Screen {
    /// The screen after the cursor went to the start of the next line.
    pub open spec fn newline(self) -> Screen {
        Screen { x_pos: BORDER_PADDING, y_pos: next_line(self.y_pos), ..self }
    }

    /// The screen after the cursor went to the start of its line.
    pub open spec fn carriage_return(self) -> Screen {
        Screen { x_pos: BORDER_PADDING, ..self }
    }

    /// The screen after everything was erased and the cursor went to the top
    /// left corner inside the border.
    pub open spec fn cleared(self) -> Screen {
        Screen {
            pixels: Seq::new(self.pixels.len(), |i: int| 0u8),
            x_pos: BORDER_PADDING,
            y_pos: BORDER_PADDING,
            ..self
        }
    }

    /// The screen once there is room for a character at the cursor: the
    /// cursor goes to the next line if the character would reach the right
    /// edge, and the screen is cleared if the character would then reach the
    /// bottom edge.
    pub open spec fn with_room(self, info: FrameBufferInfo) -> Screen {
        let wrapped = if self.x_pos + CHAR_RASTER_WIDTH >= info.width {
            self.newline()
        } else {
            self
        };
        if wrapped.y_pos + CHAR_RASTER_HEIGHT + BORDER_PADDING >= info.height {
            wrapped.cleared()
        } else {
            wrapped
        }
    }

    /// The screen after the raster `raster` was drawn at the cursor and the
    /// cursor moved one character to the right.
    pub open spec fn with_glyph_at_cursor(self, info: FrameBufferInfo, raster: Seq<u8>) -> Screen {
        Screen {
            pixels: with_raster(
                self.pixels,
                info,
                self.color,
                self.x_pos as int,
                self.y_pos as int,
                raster,
                CHAR_RASTER_PIXELS as nat,
            ),
            x_pos: (self.x_pos + CHAR_RASTER_WIDTH + LETTER_SPACING) as usize,
            ..self
        }
    }

    /// The screen after the raster `raster` was written: room is made for
    /// it, and it is drawn at the cursor.
    pub open spec fn with_glyph(self, info: FrameBufferInfo, raster: Seq<u8>) -> Screen {
        self.with_room(info).with_glyph_at_cursor(info, raster)
    }

    /// The screen after the character `c` was written. A line feed and a
    /// carriage return move the cursor. Any other character is drawn with
    /// its raster; if the font has neither the character nor the backup
    /// character, nothing happens.
    pub open spec fn with_char(self, info: FrameBufferInfo, c: char) -> Screen {
        if c == '\n' {
            self.newline()
        } else if c == '\r' {
            self.carriage_return()
        } else {
            match resolved_raster(c) {
                Some(raster) => self.with_glyph(info, raster),
                None => self,
            }
        }
    }

    /// The screen after the first `count` characters of `text` were
    /// written, one after the other.
    pub open spec fn with_text(self, info: FrameBufferInfo, text: Seq<char>, count: nat) -> Screen
        decreases count,
    {
        if count == 0 {
            self
        } else {
            self.with_text(info, text, (count - 1) as nat).with_char(info, text[count - 1])
        }
    }
}

/// Every pixel of a row and column inside the frame lies inside the buffer.
pub proof fn lemma_pixel_in_frame(len: int, info: FrameBufferInfo, x: int, y: int)
    requires
        drawable(len, info),
        0 <= x < info.stride,
        0 <= y < info.height,
    ensures
        pixel_in_bounds(len, info, x, y),
{
    let stride = info.stride as int;
    let height = info.height as int;
    let bpp = info.bytes_per_pixel as int;
    assert((y * stride + x + 1) * bpp <= height * stride * bpp) by (nonlinear_arith)
        requires
            0 <= x < stride,
            0 <= y < height,
            bpp >= 1,
    ;
    assert((y * stride + x + 1) * bpp == (y * stride + x) * bpp + bpp) by (nonlinear_arith);
}

/// If the last pixel of a cell lies inside the buffer, every pixel of the
/// cell does.
pub proof fn lemma_cell_pixel(len: int, info: FrameBufferInfo, x: int, y: int, dx: int, dy: int)
    requires
        info.bytes_per_pixel >= 1,
        x >= 0,
        y >= 0,
        cell_in_bounds(len, info, x, y),
        0 <= dx < CHAR_RASTER_WIDTH,
        0 <= dy < CHAR_RASTER_HEIGHT,
    ensures
        pixel_in_bounds(len, info, x + dx, y + dy),
{
    let stride = info.stride as int;
    let bpp = info.bytes_per_pixel as int;
    assert(((y + dy) * stride + (x + dx)) * bpp <= ((y + 15) * stride + (x + 8)) * bpp)
        by (nonlinear_arith)
        requires
            0 <= x,
            0 <= y,
            0 <= dx <= 8,
            0 <= dy <= 15,
            stride >= 0,
            bpp >= 1,
    ;
}

/// A pixel whose column or row is beyond every number of the machine lies
/// outside every buffer that the machine can hold.
pub proof fn lemma_far_pixel(len: int, info: FrameBufferInfo, x: int, y: int)
    requires
        len <= usize::MAX,
        info.stride >= 1,
        info.bytes_per_pixel >= 1,
        x >= 0,
        y >= 0,
        x > usize::MAX || y > usize::MAX,
    ensures
        !pixel_in_bounds(len, info, x, y),
{
    let stride = info.stride as int;
    let bpp = info.bytes_per_pixel as int;
    assert((y * stride + x) * bpp + bpp > len) by (nonlinear_arith)
        requires
            x >= 0,
            y >= 0,
            x > usize::MAX || y > usize::MAX,
            stride >= 1,
            bpp >= 1,
            len <= usize::MAX,
    ;
}

/// Writes text to a pixel framebuffer, character by character, and keeps
/// the cursor.
pub struct FrameBufferWriter {
    framebuffer: Vec<u8>,
    info: FrameBufferInfo,
    x_pos: usize,
    y_pos: usize,
    color: Color,
}

impl FrameBufferInfo {
    /// Whether a buffer of `len` bytes with this geometry can be written to.
    pub fn is_drawable(&self, len: usize) -> (ok: bool)
        ensures
            ok == drawable(len as int, *self),
    {
        let known: bool = match self.pixel_format {
            PixelFormat::Unknown { .. } => false,
            _ => true,
        };
        if !known || self.bytes_per_pixel < 1 || self.bytes_per_pixel > 4 || self.width
            < BORDER_PADDING + CHAR_RASTER_WIDTH || self.height < BORDER_PADDING
            + CHAR_RASTER_HEIGHT || self.stride < self.width {
            return false;
        }
        let rows: usize = match self.height.checked_mul(self.stride) {
            Some(rows) => rows,
            None => {
                assert(self.height * self.stride * self.bytes_per_pixel > len)
                    by (nonlinear_arith)
                    requires
                        self.height * self.stride > usize::MAX,
                        self.bytes_per_pixel >= 1,
                        len <= usize::MAX,
                ;
                return false;
            },
        };
        match rows.checked_mul(self.bytes_per_pixel) {
            Some(bytes) => bytes <= len,
            None => false,
        }
    }
}

impl FrameBufferWriter {
    /// What is on the screen, and where the next character goes.
    pub closed spec fn view(&self) -> Screen {
        Screen {
            pixels: self.framebuffer@,
            x_pos: self.x_pos,
            y_pos: self.y_pos,
            color: self.color,
        }
    }

    /// The geometry of the framebuffer.
    pub closed spec fn info(&self) -> FrameBufferInfo {
        self.info
    }

    /// The invariant of the writer: the buffer can be written to, and the
    /// cursor is not right of the right edge.
    pub open spec fn wf(&self) -> bool {
        &&& drawable(self@.pixels.len() as int, self.info())
        &&& self@.x_pos <= self.info().width
    }

    /// A writer for the framebuffer `framebuffer` with the geometry `info`.
    /// The screen is cleared, and text is white.
    pub fn new(framebuffer: Vec<u8>, info: FrameBufferInfo) -> (writer: Self)
        requires
            drawable(framebuffer@.len() as int, info),
        ensures
            writer.wf(),
            writer.info() == info,
            writer@ == (Screen {
                pixels: Seq::new(framebuffer@.len(), |i: int| 0u8),
                x_pos: BORDER_PADDING,
                y_pos: BORDER_PADDING,
                color: Color::White,
            }),
    {
        let mut logger = FrameBufferWriter {
            framebuffer,
            info,
            x_pos: 0,
            y_pos: 0,
            color: Color::White,
        };
        logger.clear();
        logger
    }

    /// The column of the cursor.
    pub fn x_pos(&self) -> (x: usize)
        ensures
            x == self@.x_pos,
    {
        self.x_pos
    }

    /// The row of the cursor.
    pub fn y_pos(&self) -> (y: usize)
        ensures
            y == self@.y_pos,
    {
        self.y_pos
    }

    /// The colour that text is drawn in.
    pub fn color(&self) -> (color: Color)
        ensures
            color == self@.color,
    {
        self.color
    }

    /// Sets the colour that text is drawn in.
    pub fn set_color(&mut self, color: Color)
        ensures
            final(self).info() == old(self).info(),
            final(self)@ == (Screen { color, ..old(self)@ }),
    {
        self.color = color;
    }

    /// The bytes of the framebuffer.
    pub fn buffer(&self) -> (bytes: &Vec<u8>)
        ensures
            bytes@ == self@.pixels,
    {
        &self.framebuffer
    }

    /// The number of pixels in a row.
    pub fn width(&self) -> (width: usize)
        ensures
            width == self.info().width,
    {
        self.info.width
    }

    /// The number of rows.
    pub fn height(&self) -> (height: usize)
        ensures
            height == self.info().height,
    {
        self.info.height
    }

    /// Moves the cursor to the start of the next line.
    pub fn newline(&mut self)
        requires
            old(self).wf(),
        ensures
            final(self).wf(),
            final(self).info() == old(self).info(),
            final(self)@ == old(self)@.newline(),
    {
        self.y_pos = if self.y_pos <= usize::MAX - CHAR_RASTER_HEIGHT - LINE_SPACING {
            self.y_pos + CHAR_RASTER_HEIGHT + LINE_SPACING
        } else {
            usize::MAX
        };
        self.carriage_return()
    }

    /// Moves the cursor to the start of its line.
    pub fn carriage_return(&mut self)
        requires
            old(self).wf(),
        ensures
            final(self).wf(),
            final(self).info() == old(self).info(),
            final(self)@ == old(self)@.carriage_return(),
    {
        self.x_pos = BORDER_PADDING;
    }

    /// Erases all text on the screen and moves the cursor to the top left
    /// corner inside the border.
    pub fn clear(&mut self)
        requires
            drawable(old(self)@.pixels.len() as int, old(self).info()),
        ensures
            final(self).wf(),
            final(self).info() == old(self).info(),
            final(self)@ == old(self)@.cleared(),
    {
        self.x_pos = BORDER_PADDING;
        self.y_pos = BORDER_PADDING;
        let n: usize = self.framebuffer.len();
        let mut i: usize = 0;
        while i < n
            invariant
                i <= n,
                n == self.framebuffer@.len(),
                n == old(self).framebuffer@.len(),
                self.info == old(self).info,
                self.color == old(self).color,
                self.x_pos == BORDER_PADDING,
                self.y_pos == BORDER_PADDING,
                forall|k: int| 0 <= k < i ==> self.framebuffer@[k] == 0,
            decreases n - i,
        {
            self.framebuffer[i] = 0;
            i = i + 1;
        }
        assert(self@.pixels =~= old(self)@.cleared().pixels);
    }

    /// Whether the bytes of the pixel in column `x` of row `y` lie inside the
    /// framebuffer.
    pub fn has_pixel(&self, x: usize, y: usize) -> (inside: bool)
        requires
            self.wf(),
        ensures
            inside == pixel_in_bounds(self@.pixels.len() as int, self.info(), x as int, y as int),
    {
        let bpp: usize = self.info.bytes_per_pixel;
        let len: usize = self.framebuffer.len();
        let ghost stride = self.info.stride as int;
        let row_start: usize = match y.checked_mul(self.info.stride) {
            Some(v) => v,
            None => {
                assert((y * stride + x) * bpp + bpp > len) by (nonlinear_arith)
                    requires
                        y * stride > usize::MAX,
                        x >= 0,
                        bpp >= 1,
                        len <= usize::MAX,
                ;
                return false;
            },
        };
        let pixel: usize = match row_start.checked_add(x) {
            Some(v) => v,
            None => {
                assert((y * stride + x) * bpp + bpp > len) by (nonlinear_arith)
                    requires
                        y * stride + x > usize::MAX,
                        bpp >= 1,
                        len <= usize::MAX,
                ;
                return false;
            },
        };
        let byte: usize = match pixel.checked_mul(bpp) {
            Some(v) => v,
            None => {
                return false;
            },
        };
        match byte.checked_add(bpp) {
            Some(end) => end <= len,
            None => false,
        }
    }

    /// Whether the bytes of every pixel of the character cell whose top left
    /// corner is in column `x` of row `y` lie inside the framebuffer.
    pub fn has_cell(&self, x: usize, y: usize) -> (inside: bool)
        requires
            self.wf(),
        ensures
            inside == cell_in_bounds(self@.pixels.len() as int, self.info(), x as int, y as int),
    {
        let len: usize = self.framebuffer.len();
        let right: usize = match x.checked_add(CHAR_RASTER_WIDTH - 1) {
            Some(v) => v,
            None => {
                proof {
                    lemma_far_pixel(
                        len as int,
                        self.info(),
                        x + CHAR_RASTER_WIDTH - 1,
                        y + CHAR_RASTER_HEIGHT - 1,
                    );
                }
                return false;
            },
        };
        let bottom: usize = match y.checked_add(CHAR_RASTER_HEIGHT - 1) {
            Some(v) => v,
            None => {
                proof {
                    lemma_far_pixel(
                        len as int,
                        self.info(),
                        x + CHAR_RASTER_WIDTH - 1,
                        y + CHAR_RASTER_HEIGHT - 1,
                    );
                }
                return false;
            },
        };
        self.has_pixel(right, bottom)
    }

    /// Sets the pixel in column `x` of row `y` to the writer's colour at the
    /// intensity `intensity`. The pixel must lie inside the framebuffer.
    pub fn write_pixel(&mut self, x: usize, y: usize, intensity: u8)
        requires
            old(self).wf(),
            pixel_in_bounds(old(self)@.pixels.len() as int, old(self).info(), x as int, y as int),
        ensures
            final(self).wf(),
            final(self).info() == old(self).info(),
            final(self)@ == (Screen {
                pixels: with_pixel(
                    old(self)@.pixels,
                    old(self).info(),
                    x as int,
                    y as int,
                    old(self)@.color.pixel(old(self).info().pixel_format, intensity),
                ),
                ..old(self)@
            }),
    {
        let bytes_per_pixel: usize = self.info.bytes_per_pixel;
        let ghost stride = self.info.stride as int;
        let len: usize = self.framebuffer.len();
        proof {
            assert(y * stride <= (y * stride + x) * bytes_per_pixel && y * stride + x <= (y
                * stride + x) * bytes_per_pixel) by (nonlinear_arith)
                requires
                    x >= 0,
                    y >= 0,
                    stride >= 0,
                    bytes_per_pixel >= 1,
            ;
        }
        let pixel_offset: usize = y * self.info.stride + x;
        let byte_offset: usize = pixel_offset * bytes_per_pixel;
        let color: [u8; 4] = self.color.get_color_pixel(self.info.pixel_format, intensity);
        let mut k: usize = 0;
        while k < bytes_per_pixel
            invariant
                k <= bytes_per_pixel <= 4,
                len == self.framebuffer@.len(),
                byte_offset + bytes_per_pixel <= len,
                self.framebuffer@.len() == old(self).framebuffer@.len(),
                self.info == old(self).info,
                self.color == old(self).color,
                self.x_pos == old(self).x_pos,
                self.y_pos == old(self).y_pos,
                forall|i: int|
                    0 <= i < self.framebuffer@.len() ==> self.framebuffer@[i] == if byte_offset <= i
                        < byte_offset + k {
                        color@[i - byte_offset]
                    } else {
                        old(self).framebuffer@[i]
                    },
            decreases bytes_per_pixel - k,
        {
            self.framebuffer[byte_offset + k] = color[k];
            k = k + 1;
        }
        assert(self@.pixels =~= with_pixel(
            old(self)@.pixels,
            old(self).info(),
            x as int,
            y as int,
            old(self)@.color.pixel(old(self).info().pixel_format, intensity),
        ));
    }

    /// Draws `glyph` into the character cell whose top left corner is in
    /// column `x` of row `y`. The cell must lie inside the framebuffer.
    pub fn draw_glyph(&mut self, x: usize, y: usize, glyph: &Glyph)
        requires
            old(self).wf(),
            cell_in_bounds(old(self)@.pixels.len() as int, old(self).info(), x as int, y as int),
        ensures
            final(self).wf(),
            final(self).info() == old(self).info(),
            final(self)@ == (Screen {
                pixels: with_raster(
                    old(self)@.pixels,
                    old(self).info(),
                    old(self)@.color,
                    x as int,
                    y as int,
                    glyph@,
                    CHAR_RASTER_PIXELS as nat,
                ),
                ..old(self)@
            }),
    {
        let size: usize = self.framebuffer.len();
        let ghost len = size as int;
        proof {
            if x + CHAR_RASTER_WIDTH - 1 > usize::MAX || y + CHAR_RASTER_HEIGHT - 1 > usize::MAX {
                lemma_far_pixel(
                    len,
                    self.info(),
                    x + CHAR_RASTER_WIDTH - 1,
                    y + CHAR_RASTER_HEIGHT - 1,
                );
            }
        }
        let mut n: usize = 0;
        while n < CHAR_RASTER_PIXELS
            invariant
                n <= CHAR_RASTER_PIXELS,
                self.wf(),
                self.info() == old(self).info(),
                len == old(self)@.pixels.len(),
                len == self@.pixels.len(),
                x + CHAR_RASTER_WIDTH - 1 <= usize::MAX,
                y + CHAR_RASTER_HEIGHT - 1 <= usize::MAX,
                cell_in_bounds(len, self.info(), x as int, y as int),
                self@ == (Screen {
                    pixels: with_raster(
                        old(self)@.pixels,
                        old(self).info(),
                        old(self)@.color,
                        x as int,
                        y as int,
                        glyph@,
                        n as nat,
                    ),
                    ..old(self)@
                }),
            decreases CHAR_RASTER_PIXELS - n,
        {
            let dx: usize = n % CHAR_RASTER_WIDTH;
            let dy: usize = n / CHAR_RASTER_WIDTH;
            let value: u8 = glyph.intensity(n);
            proof {
                lemma_cell_pixel(len, self.info(), x as int, y as int, dx as int, dy as int);
            }
            self.write_pixel(x + dx, y + dy, value);
            n = n + 1;
        }
    }

    /// Draws `rendered_char` at the cursor and moves the cursor one
    /// character to the right. The cell at the cursor must lie inside the
    /// frame.
    pub fn write_rendered_char(&mut self, rendered_char: &Glyph)
        requires
            old(self).wf(),
            old(self)@.x_pos + CHAR_RASTER_WIDTH <= old(self).info().width,
            old(self)@.y_pos + CHAR_RASTER_HEIGHT <= old(self).info().height,
        ensures
            final(self).wf(),
            final(self).info() == old(self).info(),
            final(self)@ == old(self)@.with_glyph_at_cursor(old(self).info(), rendered_char@),
    {
        proof {
            lemma_pixel_in_frame(
                self@.pixels.len() as int,
                self.info(),
                self.x_pos + CHAR_RASTER_WIDTH - 1,
                self.y_pos + CHAR_RASTER_HEIGHT - 1,
            );
        }
        self.draw_glyph(self.x_pos, self.y_pos, rendered_char);
        self.x_pos = self.x_pos + CHAR_RASTER_WIDTH + LETTER_SPACING;
    }

    /// Writes `glyph` as the next character: goes to the next line if the
    /// character would reach the right edge, clears the screen if it would
    /// then reach the bottom edge, and draws the glyph at the cursor.
    pub fn write_glyph(&mut self, glyph: &Glyph)
        requires
            old(self).wf(),
        ensures
            final(self).wf(),
            final(self).info() == old(self).info(),
            final(self)@ == old(self)@.with_glyph(old(self).info(), glyph@),
    {
        if self.x_pos >= self.info.width - CHAR_RASTER_WIDTH {
            self.newline();
        }
        if self.y_pos >= self.info.height - CHAR_RASTER_HEIGHT - BORDER_PADDING {
            self.clear();
        }
        self.write_rendered_char(glyph);
    }

    /// Writes a single character. A line feed and a carriage return move
    /// the cursor; any other character is drawn with its glyph, or with that
    /// of [`BACKUP_CHAR`] if the font lacks it.
    pub fn write_char(&mut self, c: char)
        requires
            old(self).wf(),
        ensures
            final(self).wf(),
            final(self).info() == old(self).info(),
            final(self)@ == old(self)@.with_char(old(self).info(), c),
    {
        if c == '\n' {
            self.newline();
        } else if c == '\r' {
            self.carriage_return();
        } else {
            match get_char_raster(c) {
                Some(glyph) => {
                    self.write_glyph(&glyph);
                },
                None => {},
            }
        }
    }

    /// Writes the characters of `s`, one after the other.
    pub fn write_str(&mut self, s: &str)
        requires
            old(self).wf(),
        ensures
            final(self).wf(),
            final(self).info() == old(self).info(),
            final(self)@ == old(self)@.with_text(old(self).info(), s@, s@.len()),
    {
        let n: usize = s.unicode_len();
        let mut i: usize = 0;
        while i < n
            invariant
                i <= n,
                n == s@.len(),
                self.wf(),
                self.info() == old(self).info(),
                self@ == old(self)@.with_text(old(self).info(), s@, i as nat),
            decreases n - i,
        {
            let c: char = s.get_char(i);
            self.write_char(c);
            i = i + 1;
        }
    }

    /// The cursor after a step back by one character: one cell to the left,
    /// or, from the left edge, at the right edge one row up.
    pub open spec fn stepped_back(&self) -> (usize, usize) {
        let x = if self@.x_pos > 0 {
            (self@.x_pos - CHAR_RASTER_WIDTH) as usize
        } else {
            self@.x_pos
        };
        if x == 0 {
            (
                self.info().width,
                if self@.y_pos > 0 {
                    (self@.y_pos - 1) as usize
                } else {
                    self@.y_pos
                },
            )
        } else {
            (x, self@.y_pos)
        }
    }

    /// Whether the cursor can step back by one character: it is at the left
    /// edge or at least one character away from it, and the cell it steps
    /// back to lies inside the framebuffer.
    pub open spec fn can_step_back(&self) -> bool {
        &&& self@.x_pos == 0 || self@.x_pos >= CHAR_RASTER_WIDTH
        &&& cell_in_bounds(
            self@.pixels.len() as int,
            self.info(),
            self.stepped_back().0 as int,
            self.stepped_back().1 as int,
        )
    }

    /// Whether the cursor can step back by one character.
    pub fn can_back_space(&self) -> (ok: bool)
        requires
            self.wf(),
        ensures
            ok == self.can_step_back(),
    {
        if self.x_pos != 0 && self.x_pos < CHAR_RASTER_WIDTH {
            return false;
        }
        let mut x: usize = self.x_pos;
        let mut y: usize = self.y_pos;
        if x > 0 {
            x = x - CHAR_RASTER_WIDTH;
        }
        if x == 0 {
            x = self.info.width;
            if y > 0 {
                y = y - 1;
            }
        }
        self.has_cell(x, y)
    }

    /// Steps back by one character and erases the cell there.
    pub fn back_space(&mut self)
        requires
            old(self).wf(),
            old(self).can_step_back(),
        ensures
            final(self).wf(),
            final(self).info() == old(self).info(),
            final(self)@ == (Screen {
                pixels: with_raster(
                    old(self)@.pixels,
                    old(self).info(),
                    old(self)@.color,
                    old(self).stepped_back().0 as int,
                    old(self).stepped_back().1 as int,
                    Seq::new(CHAR_RASTER_PIXELS as nat, |i: int| 0u8),
                    CHAR_RASTER_PIXELS as nat,
                ),
                x_pos: old(self).stepped_back().0,
                y_pos: old(self).stepped_back().1,
                color: old(self)@.color,
            }),
    {
        if self.x_pos > 0 {
            self.x_pos = self.x_pos - CHAR_RASTER_WIDTH;
        }
        if self.x_pos == 0 {
            self.x_pos = self.width();
            if self.y_pos > 0 {
                self.y_pos = self.y_pos - 1;
            }
        }
        let blank: Glyph = Glyph::filled(0);
        self.draw_glyph(self.x_pos, self.y_pos, &blank);
    }
}

} // verus!
