//! The frame surface: a linear pixel buffer with a channel order, rectangle
//! fills and bitmap-font text with a cursor.
use vstd::arithmetic::div_mod::lemma_fundamental_div_mod;
use vstd::arithmetic::mul::lemma_mul_inequality;
use vstd::prelude::*;
use vstd::std_specs::iter::IteratorSpec;

use crate::font::{glyph_of, raster, Glyph, GLYPH_HEIGHT, GLYPH_WIDTH};

verus! {

/// Byte order of the colour channels of a pixel, as the boot loader reports it.
#[derive(Debug, Clone, Copy, PartialEq, Eq, Structural)]
pub enum PixelFormat {
    Rgb,
    Bgr,
    U8,
    Unknown { red_position: u8, green_position: u8, blue_position: u8 },
}

/// Geometry of a linear framebuffer.
#[derive(Debug, Clone, Copy, PartialEq, Eq, Structural)]
pub struct FrameBufferInfo {
    pub byte_len: usize,
    pub width: usize,
    pub height: usize,
    pub pixel_format: PixelFormat,
    pub bytes_per_pixel: usize,
    pub stride: usize,
}

/// Why a framebuffer cannot be drawn on.
#[derive(Debug, Clone, Copy, PartialEq, Eq, Structural)]
pub enum FrameError {
    /// The channel order is neither RGB nor BGR.
    UnsupportedPixelFormat,
    /// The geometry does not fit the buffer.
    MalformedDescriptor,
}

/// A colour as red, green and blue intensities.
pub type Color = (u8, u8, u8);

/// The channel order is one this surface can write.
pub open spec fn supported(f: PixelFormat) -> bool {
    f == PixelFormat::Rgb || f == PixelFormat::Bgr
}

/// Every visible pixel of `info` lies inside a buffer of `len` bytes.
pub open spec fn geometry_ok(info: FrameBufferInfo, len: int) -> bool {
    &&& info.byte_len == len
    &&& info.bytes_per_pixel >= 1
    &&& info.width <= info.stride
    &&& info.height * info.stride * info.bytes_per_pixel <= len
}

/// First byte of pixel `(x, y)`.
pub open spec fn pixel_offset(info: FrameBufferInfo, x: int, y: int) -> int {
    (y * info.stride + x) * info.bytes_per_pixel
}

/// The three channel bytes of a colour in the order of `f`.
pub open spec fn channel_bytes(f: PixelFormat, c: Color) -> Seq<u8> {
    if f == PixelFormat::Bgr {
        seq![c.2, c.1, c.0]
    } else {
        seq![c.0, c.1, c.2]
    }
}

/// Byte `k` of a pixel of colour `c`: the channels, then zero padding.
pub open spec fn pixel_byte(f: PixelFormat, c: Color, k: int) -> u8 {
    if k < 3 {
        channel_bytes(f, c)[k]
    } else {
        0
    }
}

/// The colour that a grey intensity is drawn in.
pub open spec fn gray(intensity: u8) -> Color {
    ((intensity / 4) as u8, intensity, (intensity / 2) as u8)
}

/// `fb` with pixel `(x, y)` set to colour `c`.
pub open spec fn paint(fb: Seq<u8>, info: FrameBufferInfo, x: int, y: int, c: Color) -> Seq<u8> {
    let o = pixel_offset(info, x, y);
    Seq::new(
        fb.len(),
        |i: int|
            if o <= i < o + info.bytes_per_pixel {
                pixel_byte(info.pixel_format, c, i - o)
            } else {
                fb[i]
            },
    )
}

/// `fb` with pixel `(x, y)` set to colour `c` if it is on screen.
pub open spec fn plot(fb: Seq<u8>, info: FrameBufferInfo, x: int, y: int, c: Color) -> Seq<u8> {
    if 0 <= x < info.width && 0 <= y < info.height {
        paint(fb, info, x, y, c)
    } else {
        fb
    }
}

/// `v` clamped into `[0, limit]`.
pub open spec fn clip(v: int, limit: int) -> int {
    if v < 0 {
        0
    } else if v > limit {
        limit
    } else {
        v
    }
}

/// Paints pixels `x .. x_end` of row `y`, left to right.
pub open spec fn paint_span(
    fb: Seq<u8>,
    info: FrameBufferInfo,
    x: int,
    x_end: int,
    y: int,
    c: Color,
) -> Seq<u8>
    decreases x_end - x,
{
    if x >= x_end {
        fb
    } else {
        paint_span(paint(fb, info, x, y, c), info, x + 1, x_end, y, c)
    }
}

/// Paints the block of columns `x .. x_end` and rows `y .. y_end`, row by row.
pub open spec fn paint_block(
    fb: Seq<u8>,
    info: FrameBufferInfo,
    x: int,
    x_end: int,
    y: int,
    y_end: int,
    c: Color,
) -> Seq<u8>
    decreases y_end - y,
{
    if y >= y_end {
        fb
    } else {
        paint_block(paint_span(fb, info, x, x_end, y, c), info, x, x_end, y + 1, y_end, c)
    }
}

/// Paints the on-screen part of the `w` by `h` rectangle whose top left is `(x, y)`.
pub open spec fn fill(
    fb: Seq<u8>,
    info: FrameBufferInfo,
    x: int,
    y: int,
    w: int,
    h: int,
    c: Color,
) -> Seq<u8> {
    paint_block(
        fb,
        info,
        clip(x, info.width as int),
        clip(x + w, info.width as int),
        clip(y, info.height as int),
        clip(y + h, info.height as int),
        c,
    )
}

/// Paints cells `k ..` of glyph row `row` at row `y`, starting at column
/// `x0 + k`, up to the row's end or the right edge.
pub open spec fn glyph_span(
    fb: Seq<u8>,
    info: FrameBufferInfo,
    x0: int,
    y: int,
    row: Seq<u8>,
    k: int,
) -> Seq<u8>
    decreases row.len() - k,
{
    if k >= row.len() || x0 + k >= info.width {
        fb
    } else {
        glyph_span(paint(fb, info, x0 + k, y, gray(row[k])), info, x0, y, row, k + 1)
    }
}

/// Paints glyph rows `r ..` with the glyph's top left at `(x0, y0)`, up to
/// the last row or the bottom edge.
pub open spec fn glyph_block(
    fb: Seq<u8>,
    info: FrameBufferInfo,
    x0: int,
    y0: int,
    rows: Seq<Seq<u8>>,
    r: int,
) -> Seq<u8>
    decreases rows.len() - r,
{
    if r >= rows.len() || y0 + r >= info.height {
        fb
    } else {
        glyph_block(glyph_span(fb, info, x0, y0 + r, rows[r], 0), info, x0, y0, rows, r + 1)
    }
}

/// The cursor row one line further down, held at the largest `usize`.
pub open spec fn line_down(y: int) -> int {
    if y + GLYPH_HEIGHT <= usize::MAX {
        y + GLYPH_HEIGHT
    } else {
        usize::MAX as int
    }
}

/// Buffer and cursor `(fb, x, y)` after writing a glyph `gw` wide and `gh`
/// high with raster `rows`: one that would cross the right edge first moves
/// to a new line, one that would cross the bottom edge first clears the
/// surface; the glyph is then drawn at the cursor, which moves right by `gw`.
pub open spec fn glyph_step(
    info: FrameBufferInfo,
    st: (Seq<u8>, int, int),
    gw: int,
    gh: int,
    rows: Seq<Seq<u8>>,
) -> (Seq<u8>, int, int) {
    let (fb, x, y) = st;
    let wrap = x + gw > info.width;
    let x1 = if wrap {
        0
    } else {
        x
    };
    let y1 = if wrap {
        line_down(y)
    } else {
        y
    };
    let wipe = y1 + gh > info.height;
    let fb2 = if wipe {
        Seq::new(fb.len(), |i: int| 0u8)
    } else {
        fb
    };
    let x2 = if wipe {
        0
    } else {
        x1
    };
    let y2 = if wipe {
        0
    } else {
        y1
    };
    (glyph_block(fb2, info, x2, y2, rows, 0), x2 + gw, y2)
}

/// Buffer and cursor `(fb, x, y)` after writing character `ch`: a newline
/// moves to the start of the next line, a carriage return to the start of
/// this one, a character with a glyph in the font is written as a glyph
/// (`glyph_step`), and one without changes nothing.
pub open spec fn after_char(info: FrameBufferInfo, st: (Seq<u8>, int, int), ch: char) -> (
    Seq<u8>,
    int,
    int,
) {
    let (fb, x, y) = st;
    if ch == '\n' {
        (fb, 0, line_down(y))
    } else if ch == '\r' {
        (fb, 0, y)
    } else {
        match glyph_of(ch) {
            None => st,
            Some(rows) => glyph_step(info, st, GLYPH_WIDTH as int, GLYPH_HEIGHT as int, rows),
        }
    }
}

/// Buffer and cursor after writing the characters of `cs` in order.
pub open spec fn after_text(info: FrameBufferInfo, st: (Seq<u8>, int, int), cs: Seq<char>) -> (
    Seq<u8>,
    int,
    int,
)
    decreases cs.len(),
{
    if cs.len() == 0 {
        st
    } else {
        after_char(info, after_text(info, st, cs.drop_last()), cs.last())
    }
}

/// A pixel on screen lies inside the buffer.
pub proof fn lemma_pixel_in_buffer(info: FrameBufferInfo, len: int, x: int, y: int)
    requires
        geometry_ok(info, len),
        0 <= x < info.width,
        0 <= y < info.height,
    ensures
        0 <= y * info.stride + x < info.height * info.stride,
        info.height * info.stride <= len,
        0 <= pixel_offset(info, x, y),
        pixel_offset(info, x, y) + info.bytes_per_pixel <= len,
{
    let s = info.stride as int;
    let b = info.bytes_per_pixel as int;
    let h = info.height as int;
    assert(0 <= y * s + x < h * s && (y * s + x + 1) * b <= h * s * b) by (nonlinear_arith)
        requires
            0 <= x < info.width,
            info.width <= s,
            0 <= y < h,
            b >= 1,
    ;
    assert(0 <= (y * s + x) * b) by (nonlinear_arith)
        requires
            0 <= y * s + x,
            b >= 1,
    ;
    assert((y * s + x) * b + b == (y * s + x + 1) * b) by (nonlinear_arith);
    assert(h * s <= h * s * b) by (nonlinear_arith)
        requires
            0 <= h * s,
            b >= 1,
    ;
}

/// `a * b` fits in `n` exactly when `b` is at most `n / a`.
pub proof fn lemma_mul_fits(a: int, b: int, n: int)
    requires
        a > 0,
        b >= 0,
        n >= 0,
    ensures
        (a * b <= n) <==> (b <= n / a),
{
    lemma_fundamental_div_mod(n, a);
    assert(0 <= n % a < a) by (nonlinear_arith)
        requires
            a > 0,
    ;
    if b <= n / a {
        lemma_mul_inequality(b, n / a, a);
        assert(a * b <= a * (n / a)) by (nonlinear_arith)
            requires
                b * a <= (n / a) * a,
        ;
    } else {
        lemma_mul_inequality(n / a + 1, b, a);
        assert(a * b >= a * (n / a) + a) by (nonlinear_arith)
            requires
                (n / a + 1) * a <= b * a,
        ;
    }
}

/// Reading back the bytes of a pixel just written gives its colour in the
/// buffer's channel order (red first for RGB, blue first for BGR), padded
/// with zeros, and leaves every other byte as it was.
pub proof fn lemma_pixel_round_trip(fb: Seq<u8>, info: FrameBufferInfo, x: int, y: int, c: Color)
    requires
        supported(info.pixel_format),
        geometry_ok(info, fb.len() as int),
        0 <= x < info.width,
        0 <= y < info.height,
    ensures
        ({
            let o = pixel_offset(info, x, y);
            let out = paint(fb, info, x, y, c);
            &&& out.len() == fb.len()
            &&& 0 <= o
            &&& o + info.bytes_per_pixel <= fb.len()
            &&& forall|k: int|
                0 <= k < info.bytes_per_pixel ==> #[trigger] out[o + k] == pixel_byte(
                    info.pixel_format,
                    c,
                    k,
                )
            &&& info.pixel_format == PixelFormat::Rgb ==> pixel_byte(info.pixel_format, c, 0) == c.0
                && pixel_byte(info.pixel_format, c, 1) == c.1 && pixel_byte(
                info.pixel_format,
                c,
                2,
            ) == c.2
            &&& info.pixel_format == PixelFormat::Bgr ==> pixel_byte(info.pixel_format, c, 0) == c.2
                && pixel_byte(info.pixel_format, c, 1) == c.1 && pixel_byte(
                info.pixel_format,
                c,
                2,
            ) == c.0
            &&& forall|k: int| 3 <= k ==> #[trigger] pixel_byte(info.pixel_format, c, k) == 0
            &&& forall|i: int|
                0 <= i < fb.len() && !(o <= i < o + info.bytes_per_pixel) ==> #[trigger] out[i]
                    == fb[i]
        }),
{
    lemma_pixel_in_buffer(info, fb.len() as int, x, y);
}

/// Reading back a pixel written in grey `intensity` gives red `intensity / 4`,
/// green `intensity` and blue `intensity / 2` in the buffer's channel order,
/// then zero padding: `[i/4, i, i/2, 0, ..]` for RGB and `[i/2, i, i/4, 0, ..]`
/// for BGR, cut to the pixel's width; every other byte is unchanged.
pub proof fn lemma_gray_pixel_round_trip(
    fb: Seq<u8>,
    info: FrameBufferInfo,
    x: int,
    y: int,
    intensity: u8,
)
    requires
        supported(info.pixel_format),
        geometry_ok(info, fb.len() as int),
        0 <= x < info.width,
        0 <= y < info.height,
    ensures
        ({
            let o = pixel_offset(info, x, y);
            let out = paint(fb, info, x, y, gray(intensity));
            let rgb = info.pixel_format == PixelFormat::Rgb;
            &&& out.len() == fb.len()
            &&& 0 <= o
            &&& o + info.bytes_per_pixel <= fb.len()
            &&& forall|k: int|
                0 <= k < info.bytes_per_pixel ==> #[trigger] out[o + k] == if k == 0 {
                    if rgb {
                        (intensity / 4) as int
                    } else {
                        (intensity / 2) as int
                    }
                } else if k == 1 {
                    intensity as int
                } else if k == 2 {
                    if rgb {
                        (intensity / 2) as int
                    } else {
                        (intensity / 4) as int
                    }
                } else {
                    0int
                }
            &&& forall|i: int|
                0 <= i < fb.len() && !(o <= i < o + info.bytes_per_pixel) ==> #[trigger] out[i]
                    == fb[i]
        }),
{
    lemma_pixel_round_trip(fb, info, x, y, gray(intensity));
}

/// `v` clamped into `[0, limit]`.
fn clip_to(v: i128, limit: usize) -> (r: usize)
    ensures
        r == clip(v as int, limit as int),
{
    if v < 0 {
        0
    } else if v > limit as i128 {
        limit
    } else {
        v as usize
    }
}

/// A drawing surface: the pixel bytes it owns, their geometry and channel
/// order, and a text cursor.
pub struct ScreenWriter {
    framebuffer: Vec<u8>,
    info: FrameBufferInfo,
    x_pos: usize,
    y_pos: usize,
}

impl ScreenWriter {
    /// The bytes of the buffer.
    pub closed spec fn fb(&self) -> Seq<u8> {
        self.framebuffer@
    }

    pub closed spec fn info_spec(&self) -> FrameBufferInfo {
        self.info
    }

    /// Text cursor, in pixels.
    pub closed spec fn x_spec(&self) -> int {
        self.x_pos as int
    }

    pub closed spec fn y_spec(&self) -> int {
        self.y_pos as int
    }

    pub open spec fn wf(&self) -> bool {
        &&& supported(self.info_spec().pixel_format)
        &&& geometry_ok(self.info_spec(), self.fb().len() as int)
        &&& 0 <= self.x_spec() <= self.info_spec().width || 0 <= self.x_spec() <= GLYPH_WIDTH
        &&& 0 <= self.y_spec() <= usize::MAX
    }

    /// A surface over `framebuffer`, cleared, with the cursor at the origin.
    pub fn new(framebuffer: Vec<u8>, info: FrameBufferInfo) -> (r: Result<Self, FrameError>)
        ensures
            match r {
                Ok(w) => {
                    &&& supported(info.pixel_format)
                    &&& geometry_ok(info, framebuffer@.len() as int)
                    &&& w.wf()
                    &&& w.info_spec() == info
                    &&& w.fb() == Seq::new(framebuffer@.len(), |i: int| 0u8)
                    &&& w.x_spec() == 0
                    &&& w.y_spec() == 0
                },
                Err(e) => if !supported(info.pixel_format) {
                    e == FrameError::UnsupportedPixelFormat
                } else {
                    e == FrameError::MalformedDescriptor && !geometry_ok(
                        info,
                        framebuffer@.len() as int,
                    )
                },
            },
    {
        match info.pixel_format {
            PixelFormat::Rgb | PixelFormat::Bgr => {},
            _ => {
                return Err(FrameError::UnsupportedPixelFormat);
            },
        }
        if info.byte_len != framebuffer.len() || info.bytes_per_pixel == 0 || info.width
            > info.stride {
            return Err(FrameError::MalformedDescriptor);
        }
        let len = framebuffer.len();
        if info.height > 0 && info.stride > len / info.height {
            proof {
                lemma_mul_fits(info.height as int, info.stride as int, len as int);
                assert(info.height * info.stride * info.bytes_per_pixel > len) by (nonlinear_arith)
                    requires
                        info.height * info.stride > len,
                        info.bytes_per_pixel >= 1,
                ;
            }
            return Err(FrameError::MalformedDescriptor);
        }
        proof {
            if info.height > 0 {
                lemma_mul_fits(info.height as int, info.stride as int, len as int);
            } else {
                assert(info.height * info.stride == 0) by (nonlinear_arith)
                    requires
                        info.height == 0,
                ;
            }
            assert(info.height * info.stride <= len);
        }
        let rows = info.height * info.stride;
        if rows > 0 && info.bytes_per_pixel > len / rows {
            proof {
                lemma_mul_fits(rows as int, info.bytes_per_pixel as int, len as int);
            }
            return Err(FrameError::MalformedDescriptor);
        }
        proof {
            if rows > 0 {
                lemma_mul_fits(rows as int, info.bytes_per_pixel as int, len as int);
            }
            assert(info.height * info.stride * info.bytes_per_pixel <= len) by (nonlinear_arith)
                requires
                    rows == info.height * info.stride,
                    rows > 0 ==> rows * info.bytes_per_pixel <= len,
                    rows >= 0,
            ;
        }
        let mut w = ScreenWriter { framebuffer, info, x_pos: 0, y_pos: 0 };
        w.clear();
        Ok(w)
    }

    pub fn info(&self) -> (r: FrameBufferInfo)
        ensures
            r == self.info_spec(),
    {
        self.info
    }

    /// The pixel bytes.
    pub fn framebuffer(&self) -> (r: &[u8])
        ensures
            r@ == self.fb(),
    {
        self.framebuffer.as_slice()
    }

    /// The text cursor `(x, y)` in pixels.
    pub fn cursor(&self) -> (r: (usize, usize))
        ensures
            r.0 == self.x_spec(),
            r.1 == self.y_spec(),
    {
        (self.x_pos, self.y_pos)
    }

    /// Zeroes the whole buffer and puts the cursor at the origin.
    pub fn clear(&mut self)
        requires
            supported(old(self).info_spec().pixel_format),
            geometry_ok(old(self).info_spec(), old(self).fb().len() as int),
        ensures
            final(self).wf(),
            final(self).info_spec() == old(self).info_spec(),
            final(self).fb() == Seq::new(old(self).fb().len(), |i: int| 0u8),
            final(self).x_spec() == 0,
            final(self).y_spec() == 0,
    {
        self.x_pos = 0;
        self.y_pos = 0;
        let len = self.framebuffer.len();
        let mut i: usize = 0;
        while i < len
            invariant
                len == self.framebuffer@.len(),
                len == old(self).fb().len(),
                i <= len,
                self.info == old(self).info_spec(),
                self.x_pos == 0,
                self.y_pos == 0,
                forall|k: int| 0 <= k < i ==> #[trigger] self.framebuffer@[k] == 0u8,
            decreases len - i,
        {
            self.framebuffer.set(i, 0);
            i = i + 1;
        }
        assert(self.framebuffer@ =~= Seq::new(len as nat, |i: int| 0u8));
    }

    /// Writes pixel `(x, y)` in colour `(r, g, b)`, channels in the buffer's
    /// order. The pixel must be on screen.
    pub fn draw_pixel(&mut self, x: usize, y: usize, r: u8, g: u8, b: u8)
        requires
            old(self).wf(),
            x < old(self).info_spec().width,
            y < old(self).info_spec().height,
        ensures
            final(self).wf(),
            final(self).info_spec() == old(self).info_spec(),
            final(self).x_spec() == old(self).x_spec(),
            final(self).y_spec() == old(self).y_spec(),
            final(self).fb() == paint(old(self).fb(), old(self).info_spec(), x as int, y as int, (r, g, b)),
    {
        proof {
            lemma_pixel_in_buffer(self.info, self.framebuffer@.len() as int, x as int, y as int);
        }
        let bpp = self.info.bytes_per_pixel;
        let byte_offset = (y * self.info.stride + x) * bpp;
        let bgr = match self.info.pixel_format {
            PixelFormat::Bgr => true,
            _ => false,
        };
        let (first, third) = if bgr {
            (b, r)
        } else {
            (r, b)
        };
        let ghost fb0 = self.framebuffer@;
        assert(fb0.len() == self.framebuffer.len());
        let ghost c: Color = (r, g, b);
        let mut k: usize = 0;
        while k < bpp
            invariant
                self.info == old(self).info_spec(),
                self.x_pos == old(self).x_spec(),
                self.y_pos == old(self).y_spec(),
                fb0 == old(self).fb(),
                bpp == self.info.bytes_per_pixel,
                byte_offset == pixel_offset(self.info, x as int, y as int),
                byte_offset + bpp <= fb0.len(),
                byte_offset + bpp <= usize::MAX,
                channel_bytes(self.info.pixel_format, c) == seq![first, g, third],
                k <= bpp,
                self.framebuffer@.len() == fb0.len(),
                forall|i: int|
                    0 <= i < fb0.len() ==> #[trigger] self.framebuffer@[i] == if byte_offset <= i
                        < byte_offset + k {
                        pixel_byte(self.info.pixel_format, c, i - byte_offset)
                    } else {
                        fb0[i]
                    },
            decreases bpp - k,
        {
            let v: u8 = if k == 0 {
                first
            } else if k == 1 {
                g
            } else if k == 2 {
                third
            } else {
                0
            };
            self.framebuffer.set(byte_offset + k, v);
            k = k + 1;
        }
        assert(self.framebuffer@ =~= paint(fb0, self.info, x as int, y as int, c));
    }

    /// Writes pixel `(x, y)` in the colour of grey `intensity`.
    pub fn write_pixel(&mut self, x: usize, y: usize, intensity: u8)
        requires
            old(self).wf(),
            x < old(self).info_spec().width,
            y < old(self).info_spec().height,
        ensures
            final(self).wf(),
            final(self).info_spec() == old(self).info_spec(),
            final(self).x_spec() == old(self).x_spec(),
            final(self).y_spec() == old(self).y_spec(),
            final(self).fb() == paint(old(self).fb(), old(self).info_spec(), x as int, y as int, gray(intensity)),
    {
        self.draw_pixel(x, y, intensity / 4, intensity, intensity / 2);
    }

    /// Writes pixel `(x, y)` in colour `c` if it is on screen; does nothing
    /// otherwise.
    pub fn plot_pixel(&mut self, x: i64, y: i64, c: Color)
        requires
            old(self).wf(),
        ensures
            final(self).wf(),
            final(self).info_spec() == old(self).info_spec(),
            final(self).x_spec() == old(self).x_spec(),
            final(self).y_spec() == old(self).y_spec(),
            final(self).fb() == plot(old(self).fb(), old(self).info_spec(), x as int, y as int, c),
    {
        if x >= 0 && y >= 0 && (x as i128) < self.info.width as i128 && (y as i128)
            < self.info.height as i128 {
            self.draw_pixel(x as usize, y as usize, c.0, c.1, c.2);
        }
    }

    /// Fills the on-screen part of the `w` by `h` rectangle whose top left
    /// corner is `(x, y)` with colour `c`.
    pub fn fill_rect(&mut self, x: i64, y: i64, w: usize, h: usize, c: Color)
        requires
            old(self).wf(),
        ensures
            final(self).wf(),
            final(self).info_spec() == old(self).info_spec(),
            final(self).x_spec() == old(self).x_spec(),
            final(self).y_spec() == old(self).y_spec(),
            final(self).fb() == fill(
                old(self).fb(),
                old(self).info_spec(),
                x as int,
                y as int,
                w as int,
                h as int,
                c,
            ),
    {
        let ghost info = self.info;
        let ghost target = fill(self.fb(), info, x as int, y as int, w as int, h as int, c);
        let xs = clip_to(x as i128, self.info.width);
        let xe = clip_to(x as i128 + w as i128, self.info.width);
        let ys = clip_to(y as i128, self.info.height);
        let ye = clip_to(y as i128 + h as i128, self.info.height);
        let mut yy = ys;
        while yy < ye
            invariant
                self.wf(),
                self.info == info,
                info == old(self).info_spec(),
                self.x_pos == old(self).x_spec(),
                self.y_pos == old(self).y_spec(),
                xe <= info.width,
                ye <= info.height,
                ys <= yy <= ye || ye <= ys,
                yy >= ys,
                paint_block(self.fb(), info, xs as int, xe as int, yy as int, ye as int, c)
                    == target,
            decreases ye - yy,
        {
            let mut xx = xs;
            while xx < xe
                invariant
                    self.wf(),
                    self.info == info,
                    self.x_pos == old(self).x_spec(),
                    self.y_pos == old(self).y_spec(),
                    xe <= info.width,
                    yy < ye <= info.height,
                    xx >= xs,
                    paint_block(
                        paint_span(self.fb(), info, xx as int, xe as int, yy as int, c),
                        info,
                        xs as int,
                        xe as int,
                        yy + 1,
                        ye as int,
                        c,
                    ) == target,
                decreases xe - xx,
            {
                self.draw_pixel(xx, yy, c.0, c.1, c.2);
                xx = xx + 1;
            }
            yy = yy + 1;
        }
    }

    /// Buffer and cursor.
    pub open spec fn text_state(&self) -> (Seq<u8>, int, int) {
        (self.fb(), self.x_spec(), self.y_spec())
    }

    fn newline(&mut self)
        requires
            old(self).wf(),
        ensures
            final(self).wf(),
            final(self).info_spec() == old(self).info_spec(),
            final(self).fb() == old(self).fb(),
            final(self).x_spec() == 0,
            final(self).y_spec() == line_down(old(self).y_spec()),
    {
        if self.y_pos <= usize::MAX - GLYPH_HEIGHT {
            self.y_pos = self.y_pos + GLYPH_HEIGHT;
        } else {
            self.y_pos = usize::MAX;
        }
        self.carriage_return();
    }

    fn carriage_return(&mut self)
        requires
            old(self).wf(),
        ensures
            final(self).wf(),
            final(self).info_spec() == old(self).info_spec(),
            final(self).fb() == old(self).fb(),
            final(self).x_spec() == 0,
            final(self).y_spec() == old(self).y_spec(),
    {
        self.x_pos = 0;
    }

    fn width(&self) -> (r: usize)
        ensures
            r == self.info_spec().width,
    {
        self.info.width
    }

    fn height(&self) -> (r: usize)
        ensures
            r == self.info_spec().height,
    {
        self.info.height
    }

    /// Draws `glyph` with its top left at the cursor, clipped to the screen,
    /// and moves the cursor right by the glyph's width.
    fn write_rendered_char(&mut self, glyph: &Glyph)
        requires
            old(self).wf(),
            old(self).x_spec() + glyph.width <= old(self).info_spec().width || old(self).x_spec()
                + glyph.width <= GLYPH_WIDTH,
            old(self).x_spec() <= old(self).info_spec().width,
            old(self).y_spec() <= old(self).info_spec().height,
        ensures
            final(self).wf(),
            final(self).info_spec() == old(self).info_spec(),
            final(self).fb() == glyph_block(
                old(self).fb(),
                old(self).info_spec(),
                old(self).x_spec(),
                old(self).y_spec(),
                glyph.rows.deep_view(),
                0,
            ),
            final(self).x_spec() == old(self).x_spec() + glyph.width,
            final(self).y_spec() == old(self).y_spec(),
    {
        let ghost info = self.info;
        let ghost rows = glyph.rows.deep_view();
        let ghost target = glyph_block(self.fb(), info, self.x_pos as int, self.y_pos as int, rows, 0);
        let x0 = self.x_pos;
        let y0 = self.y_pos;
        let mut r: usize = 0;
        while r < glyph.rows.len() && r < self.info.height - y0
            invariant
                self.wf(),
                self.info == info,
                self.x_pos == x0,
                self.y_pos == y0,
                x0 <= info.width,
                y0 <= info.height,
                rows == glyph.rows.deep_view(),
                glyph_block(self.fb(), info, x0 as int, y0 as int, rows, r as int) == target,
            decreases glyph.rows.len() - r,
        {
            let row = &glyph.rows[r];
            assert(rows[r as int] =~= row@);
            let mut k: usize = 0;
            while k < row.len() && k < self.info.width - x0
                invariant
                    self.wf(),
                    self.info == info,
                    self.x_pos == x0,
                    self.y_pos == y0,
                    x0 <= info.width,
                    y0 + r < info.height,
                    r < rows.len(),
                    rows[r as int] == row@,
                    glyph_block(
                        glyph_span(self.fb(), info, x0 as int, (y0 + r) as int, row@, k as int),
                        info,
                        x0 as int,
                        y0 as int,
                        rows,
                        r + 1,
                    ) == target,
                decreases row.len() - k,
            {
                self.write_pixel(x0 + k, y0 + r, row[k]);
                k = k + 1;
            }
            r = r + 1;
        }
        self.x_pos = x0 + glyph.width;
    }

    /// Writes a glyph at the cursor, wrapping to a new line at the right
    /// edge and clearing the surface at the bottom edge.
    pub fn write_glyph(&mut self, glyph: &Glyph)
        requires
            old(self).wf(),
            glyph.width <= GLYPH_WIDTH,
        ensures
            final(self).wf(),
            final(self).info_spec() == old(self).info_spec(),
            final(self).text_state() == glyph_step(
                old(self).info_spec(),
                old(self).text_state(),
                glyph.width as int,
                glyph.height as int,
                glyph.rows.deep_view(),
            ),
    {
        let w = self.width();
        if glyph.width > w || self.x_pos > w - glyph.width {
            self.newline();
        }
        let h = self.height();
        if self.y_pos > h || h - self.y_pos < glyph.height {
            self.clear();
        }
        self.write_rendered_char(glyph);
    }

    /// Writes one character at the cursor.
    pub fn write_char(&mut self, c: char)
        requires
            old(self).wf(),
        ensures
            final(self).wf(),
            final(self).info_spec() == old(self).info_spec(),
            final(self).text_state() == after_char(old(self).info_spec(), old(self).text_state(), c),
    {
        if c == '\n' {
            self.newline();
        } else if c == '\r' {
            self.carriage_return();
        } else {
            match raster(c) {
                Some(glyph) => self.write_glyph(&glyph),
                None => {},
            }
        }
    }

    /// Writes the characters of `text` in order.
    pub fn write_chars(&mut self, text: &[char])
        requires
            old(self).wf(),
        ensures
            final(self).wf(),
            final(self).info_spec() == old(self).info_spec(),
            final(self).text_state() == after_text(old(self).info_spec(), old(self).text_state(), text@),
    {
        let mut i: usize = 0;
        while i < text.len()
            invariant
                self.wf(),
                self.info_spec() == old(self).info_spec(),
                i <= text@.len(),
                self.text_state() == after_text(
                    old(self).info_spec(),
                    old(self).text_state(),
                    text@.subrange(0, i as int),
                ),
            decreases text.len() - i,
        {
            let c = text[i];
            assert(text@.subrange(0, i + 1).drop_last() =~= text@.subrange(0, i as int));
            self.write_char(c);
            i = i + 1;
        }
        assert(text@.subrange(0, text@.len() as int) =~= text@);
    }

    /// Writes the characters of `s` in order.
    pub fn write_str(&mut self, s: &str)
        requires
            old(self).wf(),
        ensures
            final(self).wf(),
            final(self).info_spec() == old(self).info_spec(),
            final(self).text_state() == after_text(old(self).info_spec(), old(self).text_state(), s@),
    {
        broadcast use vstd::string::axiom_spec_iter, vstd::string::next_postcondition;

        let mut chars = s.chars();
        let ghost n: int = 0;
        loop
            invariant
                self.wf(),
                self.info_spec() == old(self).info_spec(),
                0 <= n <= s@.len(),
                chars.obeys_prophetic_iter_laws(),
                chars.remaining() == s@.skip(n),
                self.text_state() == after_text(
                    old(self).info_spec(),
                    old(self).text_state(),
                    s@.subrange(0, n),
                ),
            ensures
                self.wf(),
                self.info_spec() == old(self).info_spec(),
                self.text_state() == after_text(
                    old(self).info_spec(),
                    old(self).text_state(),
                    s@,
                ),
            decreases s@.len() - n,
        {
            match chars.next() {
                Some(c) => {
                    assert(s@.subrange(0, n + 1).drop_last() =~= s@.subrange(0, n));
                    assert(s@.skip(n)[0] == s@[n]);
                    self.write_char(c);
                    proof {
                        assert(s@.skip(n).drop_first() =~= s@.skip(n + 1));
                        n = n + 1;
                    }
                },
                None => {
                    assert(s@.subrange(0, n) =~= s@);
                    break;
                },
            }
        }
    }
}

} // verus!
