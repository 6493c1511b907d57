use vstd::prelude::*;
use crate::errors::{Error, PngStep};
use crate::png_encoding::{encode_png_rgba8, png_rgba8_encoding, png_signature};
use vstd::arithmetic::div_mod::lemma_fundamental_div_mod_converse;
use vstd::slice::slice_to_vec;
use vstd::bytes::{
    lemma_auto_spec_u16_to_from_le_bytes, lemma_auto_spec_u32_to_from_le_bytes,
    spec_u16_to_le_bytes, spec_u32_from_le_bytes, spec_u32_to_le_bytes, u16_to_le_bytes,
    u32_to_le_bytes,
};

verus! {

/// Pixel format of the captured screenshot data.
#[derive(Clone, Copy, Debug, PartialEq, Eq, Structural)]
pub enum PixelFormat {
    /// Raw GDI output: 4 bytes per pixel (BGRA), bottom-up (row 0 is the bottom of the image).
    BGRA,
    /// Top-down row order with RGBA channel layout. Suitable for most image libraries.
    RGBA,
}

/// A captured screenshot containing pixel data and metadata.
///
/// The pixel data is stored in BGRA format (bottom-up) by default.
/// Use [`Screenshot::to_rgba()`] to convert to top-down RGBA format.
#[derive(Debug)]
pub struct Screenshot {
    pixels: Vec<u8>,
    width: u32,
    height: u32,
    format: PixelFormat,
}

/// What a screenshot holds, as mathematical values.
#[verifier::ext_equal]
pub struct ScreenshotView {
    pub pixels: Seq<u8>,
    pub width: u32,
    pub height: u32,
    pub format: PixelFormat,
}

impl View for Screenshot {
    type V = ScreenshotView;

    closed spec fn view(&self) -> ScreenshotView {
        ScreenshotView {
            pixels: self.pixels@,
            width: self.width,
            height: self.height,
            format: self.format,
        }
    }
}

impl Screenshot {
    /// An RGBA screenshot holds at least its whole image, as the conversion
    /// that makes one gives it.
    #[verifier::type_invariant]
    spec fn well_formed(self) -> bool {
        self.format == PixelFormat::RGBA ==> image_len(self.width as int, self.height as int)
            <= self.pixels@.len()
    }
}

/// Number of bytes that `width` x `height` pixels of 4 bytes take.
pub open spec fn image_len(width: int, height: int) -> int {
    width * 4 * height
}

/// The channel of a BGRA pixel that lands in channel `c` of the RGBA pixel
/// (blue and red trade places, green and alpha stay).
pub open spec fn swapped_channel(c: int) -> int {
    if c == 0 {
        2
    } else if c == 2 {
        0
    } else {
        c
    }
}

/// Index, in a bottom-up BGRA buffer of the given size, of the byte that lands
/// at index `i` of the top-down RGBA buffer.
pub open spec fn rgba_source(width: int, height: int, i: int) -> int {
    let row_bytes = width * 4;
    let row = i / row_bytes;
    let col = i % row_bytes;
    (height - 1 - row) * row_bytes + (col / 4) * 4 + swapped_channel(col % 4)
}

/// The top-down RGBA buffer made from the bottom-up BGRA buffer `pixels`: rows in
/// reverse order, blue and red swapped in every pixel, and zero past the image.
pub open spec fn rgba_pixels(width: int, height: int, pixels: Seq<u8>) -> Seq<u8> {
    Seq::new(
        pixels.len(),
        |i: int|
            if i < image_len(width, height) {
                pixels[rgba_source(width, height, i)]
            } else {
                0u8
            },
    )
}

/// Byte `c` of pixel `x` in row `y` of the top-down buffer comes from byte
/// `swapped_channel(c)` of pixel `x` in row `height - 1 - y` of the bottom-up one.
proof fn lemma_rgba_source(width: int, height: int, y: int, x: int, c: int)
    requires
        0 <= y < height,
        0 <= x < width,
        0 <= c < 4,
    ensures
        0 <= y * (width * 4) + x * 4 + c < image_len(width, height),
        rgba_source(width, height, y * (width * 4) + x * 4 + c) == (height - 1 - y) * (width * 4)
            + x * 4 + swapped_channel(c),
        0 <= (height - 1 - y) * (width * 4) + x * 4 + swapped_channel(c) < image_len(
            width,
            height,
        ),
{
    let rb = width * 4;
    let i = y * rb + x * 4 + c;
    lemma_fundamental_div_mod_converse(i, rb, y, x * 4 + c);
    lemma_fundamental_div_mod_converse(x * 4 + c, 4, x, c);
    assert((y + 1) * rb <= height * rb) by (nonlinear_arith)
        requires
            y + 1 <= height,
            rb > 0,
    ;
    assert((y + 1) * rb == y * rb + rb) by (nonlinear_arith);
    assert(0 <= y * rb) by (nonlinear_arith)
        requires
            y >= 0,
            rb > 0,
    ;
    assert((height - 1 - y + 1) * rb == (height - 1 - y) * rb + rb) by (nonlinear_arith);
    assert((height - 1 - y + 1) * rb <= height * rb) by (nonlinear_arith)
        requires
            0 <= height - 1 - y,
            height - 1 - y + 1 <= height,
            rb > 0,
    ;
    assert(0 <= (height - 1 - y) * rb) by (nonlinear_arith)
        requires
            height - 1 - y >= 0,
            rb > 0,
    ;
    assert(height * rb == width * 4 * height) by (nonlinear_arith)
        requires
            rb == width * 4,
    ;
}

/// The row flip and channel swap undo themselves: applied twice to a buffer
/// of exactly `width * height` pixels they give back the bytes they started from.
pub proof fn lemma_rgba_pixels_involution(width: int, height: int, pixels: Seq<u8>)
    requires
        width >= 0,
        height >= 0,
        pixels.len() == image_len(width, height),
    ensures
        rgba_pixels(width, height, rgba_pixels(width, height, pixels)) == pixels,
{
    let once = rgba_pixels(width, height, pixels);
    let twice = rgba_pixels(width, height, once);
    assert forall|i: int| 0 <= i < pixels.len() implies twice[i] == pixels[i] by {
        let rb = width * 4;
        assert(rb > 0) by (nonlinear_arith)
            requires
                0 <= i < width * 4 * height,
                height >= 0,
                rb == width * 4,
        ;
        let y = i / rb;
        let col = i % rb;
        let x = col / 4;
        let c = col % 4;
        assert(i == y * rb + col && 0 <= col < rb) by (nonlinear_arith)
            requires
                rb > 0,
                y == i / rb,
                col == i % rb,
        ;
        assert(0 <= y < height) by (nonlinear_arith)
            requires
                i == y * rb + col,
                0 <= col < rb,
                0 <= i < rb * height,
                rb > 0,
        ;
        assert(col == x * 4 + c && 0 <= c < 4 && 0 <= x < width);
        lemma_rgba_source(width, height, y, x, c);
        lemma_rgba_source(width, height, height - 1 - y, x, swapped_channel(c));
    }
    assert(twice =~= pixels);
}

/// The value of the BMP image-size field: the size of `width` x `height` pixels
/// of 4 bytes, as the 32-bit field holds it.
pub open spec fn bmp_image_size(width: u32, height: u32) -> u32 {
    image_len(width as int, height as int) as u32
}

/// The 14-byte BMP file header followed by the 40-byte BITMAPINFOHEADER of a
/// 32-bit, uncompressed, bottom-up image.
pub open spec fn bmp_header(width: u32, height: u32, image_size: u32) -> Seq<u8> {
    seq![0x42u8, 0x4du8] + spec_u32_to_le_bytes((54 + image_size) as u32) + spec_u32_to_le_bytes(0)
        + spec_u32_to_le_bytes(54) + spec_u32_to_le_bytes(40) + spec_u32_to_le_bytes(width)
        + spec_u32_to_le_bytes(height) + spec_u16_to_le_bytes(1) + spec_u16_to_le_bytes(32)
        + spec_u32_to_le_bytes(0) + spec_u32_to_le_bytes(image_size) + spec_u32_to_le_bytes(0)
        + spec_u32_to_le_bytes(0) + spec_u32_to_le_bytes(0) + spec_u32_to_le_bytes(0)
}

/// The screenshot in top-down RGBA format: a BGRA screenshot converted, an
/// RGBA one as it is.
pub open spec fn rgba_view(s: ScreenshotView) -> ScreenshotView {
    if s.format == PixelFormat::RGBA {
        s
    } else {
        ScreenshotView {
            pixels: rgba_pixels(s.width as int, s.height as int, s.pixels),
            width: s.width,
            height: s.height,
            format: PixelFormat::RGBA,
        }
    }
}

/// The rows of a BMP file of the screenshot: bottom-up BGRA bytes. Those of a
/// BGRA screenshot as they are; those of an RGBA one converted back, which the
/// same flip and swap do.
pub open spec fn bmp_rows(s: ScreenshotView) -> Seq<u8> {
    if s.format == PixelFormat::RGBA {
        rgba_pixels(s.width as int, s.height as int, s.pixels)
    } else {
        s.pixels
    }
}

/// A BMP file of the screenshot: the header, then its bottom-up BGRA rows.
pub open spec fn bmp_file(s: ScreenshotView) -> Seq<u8> {
    bmp_header(s.width, s.height, bmp_image_size(s.width, s.height)) + bmp_rows(s)
}

/// Converting to RGBA a screenshot that is already RGBA leaves it as it is.
pub proof fn lemma_to_rgba_idempotent(s: ScreenshotView)
    ensures
        rgba_view(rgba_view(s)) == rgba_view(s),
{
}

/// A BGRA screenshot and its RGBA conversion hold the same image, so they give
/// the same BMP file.
pub proof fn lemma_bmp_same_after_rgba(s: ScreenshotView)
    requires
        s.format == PixelFormat::BGRA,
        s.pixels.len() == image_len(s.width as int, s.height as int),
    ensures
        bmp_file(rgba_view(s)) == bmp_file(s),
{
    lemma_rgba_pixels_involution(s.width as int, s.height as int, s.pixels);
    assert(bmp_rows(rgba_view(s)) == s.pixels);
}

/// The conditions under which the BMP encoding computes its sizes without overflow.
pub open spec fn bmp_encodable(s: ScreenshotView) -> bool {
    &&& s.width * 4 <= usize::MAX
    &&& image_len(s.width as int, s.height as int) <= usize::MAX
    &&& 54 + bmp_image_size(s.width, s.height) <= u32::MAX
}

/// Reading the header of an encoded screenshot back gives the values it was
/// written from. When the buffer holds exactly `width * height` pixels, the
/// file-size field equals the length of the file.
pub proof fn lemma_bmp_header_fields(s: ScreenshotView)
    requires
        s.pixels.len() == image_len(s.width as int, s.height as int),
        54 + image_len(s.width as int, s.height as int) <= u32::MAX,
    ensures
        bmp_file(s).len() == 54 + s.pixels.len(),
        bmp_file(s).subrange(0, 2) == seq![0x42u8, 0x4du8],
        spec_u32_from_le_bytes(bmp_file(s).subrange(2, 6)) == bmp_file(s).len(),
        spec_u32_from_le_bytes(bmp_file(s).subrange(10, 14)) == 54,
        spec_u32_from_le_bytes(bmp_file(s).subrange(14, 18)) == 40,
        spec_u32_from_le_bytes(bmp_file(s).subrange(18, 22)) == s.width,
        spec_u32_from_le_bytes(bmp_file(s).subrange(22, 26)) == s.height,
        spec_u32_from_le_bytes(bmp_file(s).subrange(34, 38)) == s.pixels.len(),
        bmp_file(s).subrange(54, bmp_file(s).len() as int) == bmp_rows(s),
{
    lemma_auto_spec_u32_to_from_le_bytes();
    lemma_auto_spec_u16_to_from_le_bytes();
    let size = bmp_image_size(s.width, s.height);
    assert(size == image_len(s.width as int, s.height as int));
    let b = bmp_file(s);
    let h = bmp_header(s.width, s.height, size);
    assert(h.len() == 54);
    assert(b.subrange(0, 2) =~= seq![0x42u8, 0x4du8]);
    assert(b.subrange(2, 6) =~= spec_u32_to_le_bytes((54 + size) as u32));
    assert(b.subrange(10, 14) =~= spec_u32_to_le_bytes(54));
    assert(b.subrange(14, 18) =~= spec_u32_to_le_bytes(40));
    assert(b.subrange(18, 22) =~= spec_u32_to_le_bytes(s.width));
    assert(b.subrange(22, 26) =~= spec_u32_to_le_bytes(s.height));
    assert(b.subrange(34, 38) =~= spec_u32_to_le_bytes(size));
    assert(bmp_rows(s).len() == s.pixels.len());
    assert(b.subrange(54, b.len() as int) =~= bmp_rows(s));
}

/// What converting a BGRA screenshot to RGBA gives, pixel by pixel: the same
/// size and buffer length, format RGBA; byte `c` of pixel `x` in row `y` from
/// the top holds the bytes of pixel `x` in row `height - 1 - y` from the bottom
/// of the source with blue and red traded (red, green, blue, alpha from the
/// source's bytes 2, 1, 0, 3); and every byte past the image is zero.
pub proof fn lemma_to_rgba_pixel(s: ScreenshotView, y: int, x: int, k: int)
    requires
        s.format == PixelFormat::BGRA,
        image_len(s.width as int, s.height as int) <= s.pixels.len(),
        0 <= y < s.height,
        0 <= x < s.width,
    ensures
        rgba_view(s).format == PixelFormat::RGBA,
        rgba_view(s).width == s.width,
        rgba_view(s).height == s.height,
        rgba_view(s).pixels.len() == s.pixels.len(),
        ({
            let row_bytes = s.width * 4;
            let o = y * row_bytes + x * 4;
            let q = (s.height - 1 - y) * row_bytes + x * 4;
            &&& 0 <= o && o + 3 < image_len(s.width as int, s.height as int)
            &&& 0 <= q && q + 3 < image_len(s.width as int, s.height as int)
            &&& rgba_view(s).pixels[o] == s.pixels[q + 2]
            &&& rgba_view(s).pixels[o + 1] == s.pixels[q + 1]
            &&& rgba_view(s).pixels[o + 2] == s.pixels[q]
            &&& rgba_view(s).pixels[o + 3] == s.pixels[q + 3]
        }),
        image_len(s.width as int, s.height as int) <= k < s.pixels.len() ==> rgba_view(s).pixels[k]
            == 0u8,
{
    let w = s.width as int;
    let h = s.height as int;
    lemma_rgba_source(w, h, y, x, 0);
    lemma_rgba_source(w, h, y, x, 1);
    lemma_rgba_source(w, h, y, x, 2);
    lemma_rgba_source(w, h, y, x, 3);
}

/// Converting an RGBA screenshot leaves it exactly as it is.
pub proof fn lemma_to_rgba_keeps_rgba(s: ScreenshotView)
    requires
        s.format == PixelFormat::RGBA,
    ensures
        rgba_view(s) == s,
{
}

/// The BMP file of a BGRA screenshot is the 54-byte header followed by the
/// screenshot's bytes unchanged, in the bottom-up order the positive height in
/// the header announces.
pub proof fn lemma_bmp_body_of_bgra(s: ScreenshotView)
    requires
        s.format == PixelFormat::BGRA,
    ensures
        bmp_file(s).len() == 54 + s.pixels.len(),
        bmp_file(s).subrange(54, bmp_file(s).len() as int) == s.pixels,
{
    lemma_auto_spec_u32_to_from_le_bytes();
    lemma_auto_spec_u16_to_from_le_bytes();
    let b = bmp_file(s);
    assert(bmp_header(s.width, s.height, bmp_image_size(s.width, s.height)).len() == 54);
    assert(b.subrange(54, b.len() as int) =~= s.pixels);
}

/// The BMP file of an RGBA screenshot holds its rows bottom-up in BGRA order:
/// after the 54-byte header, byte `c` of pixel `x` in row `y` from the bottom
/// holds the bytes of pixel `x` in row `height - 1 - y` from the top of the
/// RGBA buffer with red and blue traded back (blue, green, red, alpha from its
/// bytes 2, 1, 0, 3).
pub proof fn lemma_bmp_body_of_rgba(s: ScreenshotView, y: int, x: int)
    requires
        s.format == PixelFormat::RGBA,
        image_len(s.width as int, s.height as int) <= s.pixels.len(),
        0 <= y < s.height,
        0 <= x < s.width,
    ensures
        bmp_file(s).len() == 54 + s.pixels.len(),
        ({
            let row_bytes = s.width * 4;
            let o = 54 + y * row_bytes + x * 4;
            let q = (s.height - 1 - y) * row_bytes + x * 4;
            &&& 0 <= q && q + 3 < image_len(s.width as int, s.height as int)
            &&& 54 <= o && o + 3 < bmp_file(s).len()
            &&& bmp_file(s)[o] == s.pixels[q + 2]
            &&& bmp_file(s)[o + 1] == s.pixels[q + 1]
            &&& bmp_file(s)[o + 2] == s.pixels[q]
            &&& bmp_file(s)[o + 3] == s.pixels[q + 3]
        }),
{
    lemma_auto_spec_u32_to_from_le_bytes();
    lemma_auto_spec_u16_to_from_le_bytes();
    let w = s.width as int;
    let h = s.height as int;
    assert(bmp_header(s.width, s.height, bmp_image_size(s.width, s.height)).len() == 54);
    lemma_rgba_source(w, h, y, x, 0);
    lemma_rgba_source(w, h, y, x, 1);
    lemma_rgba_source(w, h, y, x, 2);
    lemma_rgba_source(w, h, y, x, 3);
}

/// Appends `bytes` to `out`.
fn append_bytes(out: &mut Vec<u8>, bytes: &[u8])
    ensures
        final(out)@ == old(out)@ + bytes@,
{
    out.extend_from_slice(bytes);
    assert(final(out)@ =~= old(out)@ + bytes@);
}

/// The top-down RGBA bytes of a bottom-up BGRA buffer of `width` x `height`
/// pixels: rows reversed, blue and red swapped, zero past the image.
fn flip_rows_swap_channels(pixels: &Vec<u8>, width: u32, height: u32) -> (rgba: Vec<u8>)
    requires
        image_len(width as int, height as int) <= pixels@.len(),
    ensures
        rgba@ == rgba_pixels(width as int, height as int, pixels@),
{
    let len = pixels.len();
    let ghost w = width as int;
    let ghost h = height as int;
    let ghost target = rgba_pixels(w, h, pixels@);
    let mut rgba: Vec<u8> = Vec::with_capacity(len);
    let mut k: usize = 0;
    while k < len
        invariant
            k <= len,
            rgba@.len() == k,
            forall|i: int| 0 <= i < k ==> rgba@[i] == 0u8,
        decreases len - k,
    {
        rgba.push(0u8);
        k = k + 1;
    }
    let width = width as usize;
    let height = height as usize;
    if height > 0 {
        assert(width * 4 <= image_len(w, h)) by (nonlinear_arith)
            requires
                h >= 1,
                w >= 0,
                w == width,
        ;
        let row_bytes = width * 4;
        let mut y: usize = 0;
        while y < height
            invariant
                len == pixels@.len(),
                image_len(w, h) <= len,
                w == width,
                h == height,
                row_bytes == width * 4,
                target == rgba_pixels(w, h, pixels@),
                y <= height,
                rgba@.len() == len,
                forall|i: int| 0 <= i < y * row_bytes ==> rgba@[i] == target[i],
                forall|i: int| y * row_bytes <= i < len ==> rgba@[i] == 0u8,
            decreases height - y,
        {
            assert(y * row_bytes + row_bytes <= image_len(w, h)) by (nonlinear_arith)
                requires
                    y + 1 <= h,
                    row_bytes == w * 4,
                    w >= 0,
            ;
            assert((height - 1 - y) * row_bytes <= y * row_bytes + (height - 1 - y) * row_bytes)
                by (nonlinear_arith)
                requires
                    y >= 0,
                    row_bytes >= 0,
            ;
            assert(y * row_bytes + (height - 1 - y) * row_bytes + row_bytes == h * row_bytes)
                by (nonlinear_arith)
                requires
                    h == height,
            ;
            assert(h * row_bytes == image_len(w, h)) by (nonlinear_arith)
                requires
                    row_bytes == w * 4,
            ;
            let src_row = (height - 1 - y) * row_bytes;
            let dst_row = y * row_bytes;
            let mut x: usize = 0;
            while x < width
                invariant
                    len == pixels@.len(),
                    image_len(w, h) <= len,
                    w == width,
                    h == height,
                    row_bytes == width * 4,
                    target == rgba_pixels(w, h, pixels@),
                    y < height,
                    src_row == (height - 1 - y) * row_bytes,
                    dst_row == y * row_bytes,
                    dst_row + row_bytes <= image_len(w, h),
                    src_row + row_bytes <= image_len(w, h),
                    x <= width,
                    rgba@.len() == len,
                    forall|i: int| 0 <= i < dst_row + x * 4 ==> rgba@[i] == target[i],
                    forall|i: int| dst_row + x * 4 <= i < len ==> rgba@[i] == 0u8,
                decreases width - x,
            {
                let src_idx = src_row + x * 4;
                let dst_idx = dst_row + x * 4;
                proof {
                    lemma_rgba_source(w, h, y as int, x as int, 0);
                    lemma_rgba_source(w, h, y as int, x as int, 1);
                    lemma_rgba_source(w, h, y as int, x as int, 2);
                    lemma_rgba_source(w, h, y as int, x as int, 3);
                }
                let r = pixels[src_idx + 2];
                let g = pixels[src_idx + 1];
                let b = pixels[src_idx];
                let a = pixels[src_idx + 3];
                rgba.set(dst_idx, r);
                rgba.set(dst_idx + 1, g);
                rgba.set(dst_idx + 2, b);
                rgba.set(dst_idx + 3, a);
                x = x + 1;
            }
            assert(dst_row + row_bytes == (y + 1) * row_bytes) by (nonlinear_arith)
                requires
                    dst_row == y * row_bytes,
            ;
            y = y + 1;
        }
        assert(height * row_bytes == image_len(w, h)) by (nonlinear_arith)
            requires
                row_bytes == w * 4,
                h == height,
        ;
    } else {
        assert(w * 4 * h == 0) by (nonlinear_arith)
            requires
                h == 0,
        ;
    }
    assert(rgba@ =~= target);
    rgba
}


impl Screenshot {
    /// Creates a new screenshot from raw pixel data.
    pub fn new(pixels: Vec<u8>, width: u32, height: u32) -> (s: Self)
        ensures
            s@ == (ScreenshotView { pixels: pixels@, width, height, format: PixelFormat::BGRA }),
    {
        Self { pixels, width, height, format: PixelFormat::BGRA }
    }

    /// Returns the width of the screenshot in pixels.
    pub fn width(&self) -> (w: u32)
        ensures
            w == self@.width,
    {
        self.width
    }

    /// Returns the height of the screenshot in pixels.
    pub fn height(&self) -> (h: u32)
        ensures
            h == self@.height,
    {
        self.height
    }

    /// Returns a reference to the raw pixel data.
    ///
    /// The pixel format is determined by [`Screenshot::format()`].
    pub fn pixels(&self) -> (p: &[u8])
        ensures
            p@ == self@.pixels,
    {
        self.pixels.as_slice()
    }

    /// Returns the pixel format of the screenshot.
    pub fn format(&self) -> (f: PixelFormat)
        ensures
            f == self@.format,
    {
        self.format
    }

    /// Converts the screenshot to top-down RGBA format.
    ///
    /// This flips the image vertically (GDI bitmaps are bottom-up) and
    /// swaps the B and R channels (BGRA -> RGBA). A screenshot already in
    /// RGBA format is copied as it is.
    pub fn to_rgba(&self) -> (r: Screenshot)
        requires
            self@.format == PixelFormat::BGRA ==> image_len(self@.width as int, self@.height as int)
                <= self@.pixels.len(),
        ensures
            r@ == rgba_view(self@),
    {
        proof {
            use_type_invariant(self);
        }
        match self.format {
            PixelFormat::RGBA => Screenshot {
                pixels: slice_to_vec(self.pixels.as_slice()),
                width: self.width,
                height: self.height,
                format: PixelFormat::RGBA,
            },
            PixelFormat::BGRA => {
                let len = self.pixels.len();
                let rgba = flip_rows_swap_channels(&self.pixels, self.width, self.height);
                assert(rgba@.len() == len);
                Screenshot {
                    pixels: rgba,
                    width: self.width,
                    height: self.height,
                    format: PixelFormat::RGBA,
                }
            },
        }
    }

    /// Converts the screenshot to BMP file bytes.
    ///
    /// Returns a complete BMP file with BITMAPINFOHEADER header and pixel data.
    pub fn to_bmp_bytes(&self) -> (data: Vec<u8>)
        requires
            bmp_encodable(self@),
        ensures
            data@ == bmp_file(self@),
    {
        let row_bytes = (self.width as usize) * 4;
        let image_size = row_bytes * (self.height as usize);
        let size_field = image_size as u32;
        assert(size_field == bmp_image_size(self@.width, self@.height));
        let file_size = 14 + 40 + size_field;
        let mut data: Vec<u8> = Vec::with_capacity(file_size as usize);
        // BMP file header
        data.push(0x42u8);
        data.push(0x4du8);
        append_bytes(&mut data, u32_to_le_bytes(file_size).as_slice());
        append_bytes(&mut data, u32_to_le_bytes(0).as_slice());
        append_bytes(&mut data, u32_to_le_bytes(54).as_slice());
        // BITMAPINFOHEADER; a positive height means bottom-up rows
        append_bytes(&mut data, u32_to_le_bytes(40).as_slice());
        append_bytes(&mut data, u32_to_le_bytes(self.width).as_slice());
        append_bytes(&mut data, u32_to_le_bytes(self.height).as_slice());
        append_bytes(&mut data, u16_to_le_bytes(1).as_slice());
        append_bytes(&mut data, u16_to_le_bytes(32).as_slice());
        append_bytes(&mut data, u32_to_le_bytes(0).as_slice());
        append_bytes(&mut data, u32_to_le_bytes(size_field).as_slice());
        append_bytes(&mut data, u32_to_le_bytes(0).as_slice());
        append_bytes(&mut data, u32_to_le_bytes(0).as_slice());
        append_bytes(&mut data, u32_to_le_bytes(0).as_slice());
        append_bytes(&mut data, u32_to_le_bytes(0).as_slice());
        // pixel data, bottom-up BGRA as GDI produces it
        proof {
            use_type_invariant(self);
        }
        match self.format {
            PixelFormat::BGRA => append_bytes(&mut data, self.pixels.as_slice()),
            PixelFormat::RGBA => {
                let rows = flip_rows_swap_channels(&self.pixels, self.width, self.height);
                append_bytes(&mut data, rows.as_slice());
            },
        }
        assert(data@ =~= bmp_file(self@));
        data
    }

    /// Encodes the screenshot as a PNG file of 8-bit RGBA pixels.
    ///
    /// The image is converted to top-down RGBA format first. Encoding fails
    /// unless the width and height are positive and the buffer holds exactly
    /// `width * height` pixels: at the header for a zero size, else at the data.
    pub fn to_png_bytes(&self) -> (res: Result<Vec<u8>, Error>)
        requires
            self@.format == PixelFormat::BGRA ==> image_len(self@.width as int, self@.height as int)
                <= self@.pixels.len(),
        ensures
            res is Ok <==> (self@.width > 0 && self@.height > 0 && self@.pixels.len() == image_len(
                self@.width as int,
                self@.height as int,
            )),
            res matches Ok(bytes) ==> bytes@ == png_rgba8_encoding(
                self@.width,
                self@.height,
                rgba_view(self@).pixels,
            ),
            res matches Ok(bytes) ==> bytes@.len() > 8 && bytes@.subrange(0, 8) == png_signature(),
            res matches Err(e) ==> e == Error::Png(
                if self@.width == 0 || self@.height == 0 {
                    PngStep::Header
                } else {
                    PngStep::Data
                },
                e->Png_1,
            ),
    {
        proof {
            use_type_invariant(self);
        }
        let len = self.pixels.len();
        let rgba = self.to_rgba();
        assert(rgba.pixels@.len() == len);
        match encode_png_rgba8(rgba.width, rgba.height, rgba.pixels.as_slice()) {
            Ok(bytes) => Ok(bytes),
            Err((step, message)) => Err(Error::Png(step, message)),
        }
    }
}

} // verus!
