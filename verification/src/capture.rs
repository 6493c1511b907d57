//! The decisions of a screen capture. A platform layer answers each request
//! that a [`CaptureStep`] makes (the size of the virtual screen, or the pixels
//! of a region) with a [`PlatformReply`], and [`CaptureStep::advance`] decides
//! what comes next, until the step is [`CaptureStep::Done`].
use vstd::prelude::*;
use vstd::slice::slice_subrange;

use crate::errors::Error;
use crate::screenshots::{image_len, PixelFormat, Screenshot, ScreenshotView};
use crate::types::Rect;

verus! {

/// A region of the screen to copy, in screen coordinates (pixels).
#[derive(Clone, Copy, Debug, PartialEq, Eq, Structural)]
pub struct CaptureRegion {
    pub left: i32,
    pub top: i32,
    pub width: u32,
    pub height: u32,
}

/// The region between the given edges, or `None` where its width or height
/// is zero or negative.
pub open spec fn region_of_edges(left: i32, top: i32, right: i32, bottom: i32) -> Option<
    CaptureRegion,
> {
    let width = right - left;
    let height = bottom - top;
    if width <= 0 || height <= 0 {
        None
    } else {
        Some(CaptureRegion { left, top, width: width as u32, height: height as u32 })
    }
}

/// The width and height of a rectangle can be computed as 32-bit values.
pub open spec fn rect_size_fits(rect: Rect) -> bool {
    &&& i32::MIN <= rect.right() - rect.left() <= i32::MAX
    &&& i32::MIN <= rect.bottom() - rect.top() <= i32::MAX
}

/// What a capture asks of the platform next, or how it ended.
#[derive(Debug)]
pub enum CaptureStep {
    /// Read the origin and size of the virtual screen (all monitors together).
    QueryVirtualScreen,
    /// Copy the region of the screen as rows of 32-bit BGRA pixels, bottom row first.
    CopyRegion(CaptureRegion),
    /// The capture ended with this result.
    Done(Result<Screenshot, Error>),
}

/// What the platform answers to a request of a [`CaptureStep`].
#[derive(Debug)]
pub enum PlatformReply {
    /// The origin and size of the virtual screen, with the operating system's
    /// last error code as it stands after reading them.
    VirtualScreen { x: i32, y: i32, width: i32, height: i32, last_error: i32 },
    /// The copied pixels: `data` holds the rows one after the other, bottom row
    /// first, each `stride` bytes long.
    Bitmap { stride: usize, data: Vec<u8> },
    /// The platform call failed with this operating system error code.
    Failed(i32),
}

/// The rows of a bitmap of `rows` rows, `stride` bytes apart, cut to their
/// first `row_bytes` bytes and put one after the other.
pub open spec fn packed_rows(data: Seq<u8>, stride: int, row_bytes: int, rows: nat) -> Seq<u8>
    decreases rows,
{
    if rows == 0 {
        Seq::empty()
    } else {
        packed_rows(data, stride, row_bytes, (rows - 1) as nat) + data.subrange(
            (rows - 1) * stride,
            (rows - 1) * stride + row_bytes,
        )
    }
}

/// The pixels of a copied region: each of its rows cut to `width` pixels.
pub open spec fn bitmap_pixels(data: Seq<u8>, stride: int, width: u32, height: u32) -> Seq<u8> {
    packed_rows(data, stride, width * 4, height as nat)
}

/// Rows that are exactly as long as their stride pack to the buffer's start.
proof fn lemma_packed_rows_whole(data: Seq<u8>, row_bytes: int, rows: nat)
    requires
        row_bytes >= 0,
        rows * row_bytes <= data.len(),
    ensures
        packed_rows(data, row_bytes, row_bytes, rows) == data.subrange(0, rows * row_bytes),
    decreases rows,
{
    if rows > 0 {
        assert((rows - 1) * row_bytes + row_bytes == rows * row_bytes) by (nonlinear_arith);
        assert(0 <= (rows - 1) * row_bytes) by (nonlinear_arith)
            requires
                rows >= 1,
                row_bytes >= 0,
        ;
        lemma_packed_rows_whole(data, row_bytes, (rows - 1) as nat);
        assert(data.subrange(0, rows * row_bytes) =~= data.subrange(0, (rows - 1) * row_bytes)
            + data.subrange((rows - 1) * row_bytes, (rows - 1) * row_bytes + row_bytes));
    } else {
        assert(rows * row_bytes == 0) by (nonlinear_arith)
            requires
                rows == 0,
        ;
        assert(data.subrange(0, 0) =~= Seq::<u8>::empty());
    }
}

/// A copied buffer has the shape that its region and stride call for.
pub open spec fn bitmap_fits(region: CaptureRegion, stride: int, len: int) -> bool {
    &&& len == stride * region.height
    &&& region.height == 0 || (region.height - 1) * stride + region.width * 4 <= len
    &&& region.width * 4 <= usize::MAX
    &&& image_len(region.width as int, region.height as int) <= usize::MAX
}

proof fn lemma_packed_rows_len(data: Seq<u8>, stride: int, row_bytes: int, rows: nat)
    requires
        stride >= 0,
        row_bytes >= 0,
        rows == 0 || (rows - 1) * stride + row_bytes <= data.len(),
    ensures
        packed_rows(data, stride, row_bytes, rows).len() == rows * row_bytes,
    decreases rows,
{
    if rows > 0 {
        if rows > 1 {
            assert((rows - 2) * stride + row_bytes <= (rows - 1) * stride + row_bytes)
                by (nonlinear_arith)
                requires
                    rows >= 2,
                    stride >= 0,
            ;
        }
        assert(0 <= (rows - 1) * stride) by (nonlinear_arith)
            requires
                rows >= 1,
                stride >= 0,
        ;
        lemma_packed_rows_len(data, stride, row_bytes, (rows - 1) as nat);
        assert((rows - 1) * row_bytes + row_bytes == rows * row_bytes) by (nonlinear_arith);
    }
}

/// Capturing a rectangle refuses it with [`Error::InvalidArg`] exactly when its
/// width (`right - left`) or its height (`bottom - top`) is zero or negative,
/// and otherwise asks to copy the region at its top-left corner with exactly
/// that width and height, both positive.
pub proof fn lemma_capture_rect_region(
    step: CaptureStep,
    left: i32,
    top: i32,
    right: i32,
    bottom: i32,
)
    requires
        step.copies(region_of_edges(left, top, right, bottom)),
    ensures
        right - left <= 0 || bottom - top <= 0 ==> step matches CaptureStep::Done(
            Err(Error::InvalidArg),
        ),
        right - left > 0 && bottom - top > 0 ==> (step matches CaptureStep::CopyRegion(region)
            && region.left == left && region.top == top && region.width == right - left
            && region.height == bottom - top && region.width > 0 && region.height > 0),
{
}

proof fn lemma_packed_rows_index(
    data: Seq<u8>,
    stride: int,
    row_bytes: int,
    rows: nat,
    y: int,
    i: int,
)
    requires
        stride >= 0,
        row_bytes >= 0,
        rows == 0 || (rows - 1) * stride + row_bytes <= data.len(),
        0 <= y < rows,
        0 <= i < row_bytes,
    ensures
        0 <= y * stride + i < data.len(),
        0 <= y * row_bytes + i < rows * row_bytes,
        packed_rows(data, stride, row_bytes, rows)[y * row_bytes + i] == data[y * stride + i],
    decreases rows,
{
    lemma_packed_rows_len(data, stride, row_bytes, rows);
    assert(0 <= y * stride && y * stride <= (rows - 1) * stride) by (nonlinear_arith)
        requires
            0 <= y < rows,
            stride >= 0,
    ;
    assert(0 <= y * row_bytes && (y + 1) * row_bytes <= rows * row_bytes
        && y * row_bytes + row_bytes == (y + 1) * row_bytes) by (nonlinear_arith)
        requires
            0 <= y < rows,
            row_bytes >= 0,
    ;
    let prev = (rows - 1) as nat;
    if prev > 0 {
        assert((prev - 1) * stride + row_bytes <= (rows - 1) * stride + row_bytes)
            by (nonlinear_arith)
            requires
                prev == rows - 1,
                prev >= 1,
                stride >= 0,
        ;
    }
    lemma_packed_rows_len(data, stride, row_bytes, prev);
    assert(prev * row_bytes == (rows - 1) * row_bytes);
    if y < rows - 1 {
        assert((y + 1) * row_bytes <= prev * row_bytes) by (nonlinear_arith)
            requires
                y + 1 <= prev,
                row_bytes >= 0,
        ;
        lemma_packed_rows_index(data, stride, row_bytes, prev, y, i);
    } else {
        assert(y == rows - 1);
    }
}

/// A captured region's pixels hold `height` rows of `width` pixels, and byte
/// `i` of row `y` is byte `i` of row `y` of the copied buffer, whose rows are
/// `stride` bytes apart: the rows are kept in their order and cut to the
/// region's width.
pub proof fn lemma_bitmap_pixels_rows(
    data: Seq<u8>,
    stride: int,
    width: u32,
    height: u32,
    y: int,
    i: int,
)
    requires
        stride >= 0,
        height == 0 || (height - 1) * stride + width * 4 <= data.len(),
        0 <= y < height,
        0 <= i < width * 4,
    ensures
        bitmap_pixels(data, stride, width, height).len() == image_len(width as int, height as int),
        0 <= y * stride + i < data.len(),
        bitmap_pixels(data, stride, width, height)[y * (width * 4) + i] == data[y * stride + i],
{
    lemma_packed_rows_len(data, stride, width * 4, height as nat);
    assert(height * (width * 4) == image_len(width as int, height as int)) by (nonlinear_arith);
    lemma_packed_rows_index(data, stride, width * 4, height as nat, y, i);
}

/// Cuts each of the `height` rows of `data`, `stride` bytes apart, to its first
/// `width` pixels; rows that already hold exactly that are kept as they are.
fn trim_rows(data: Vec<u8>, stride: usize, width: u32, height: u32) -> (pixels: Vec<u8>)
    requires
        data@.len() == stride * height,
        width * 4 <= usize::MAX,
        image_len(width as int, height as int) <= usize::MAX,
        height == 0 || (height - 1) * stride + width * 4 <= data@.len(),
    ensures
        pixels@ == bitmap_pixels(data@, stride as int, width, height),
{
    let row_bytes = (width as usize) * 4;
    if stride != row_bytes {
        let rows = height as usize;
        let len = data.len();
        let mut trimmed: Vec<u8> = Vec::with_capacity(row_bytes * rows);
        let mut y: usize = 0;
        while y < rows
            invariant
                y <= rows,
                rows == height,
                row_bytes == width * 4,
                len == data@.len(),
                rows == 0 || (rows - 1) * stride + row_bytes <= len,
                trimmed@ == packed_rows(data@, stride as int, row_bytes as int, y as nat),
            decreases rows - y,
        {
            assert(y * stride + row_bytes <= (rows - 1) * stride + row_bytes) by (nonlinear_arith)
                requires
                    y + 1 <= rows,
                    stride >= 0,
            ;
            assert(0 <= y * stride) by (nonlinear_arith)
                requires
                    y >= 0,
                    stride >= 0,
            ;
            let start = y * stride;
            let row = slice_subrange(data.as_slice(), start, start + row_bytes);
            trimmed.extend_from_slice(row);
            assert(trimmed@ =~= packed_rows(data@, stride as int, row_bytes as int, (y + 1) as nat));
            y = y + 1;
        }
        trimmed
    } else {
        proof {
            assert(height * row_bytes == data@.len()) by (nonlinear_arith)
                requires
                    data@.len() == stride * height,
                    stride == row_bytes,
            ;
            lemma_packed_rows_whole(data@, row_bytes as int, height as nat);
            assert(data@.subrange(0, height * row_bytes) =~= data@);
        }
        data
    }
}

impl CaptureStep {
    /// The reply is one that the platform can give to this step's request:
    /// the size of the virtual screen to a query (where it is not empty, with
    /// far edges that fit in 32 bits), and a failure or a buffer of the expected shape to a copy.
    pub open spec fn answers(&self, reply: &PlatformReply) -> bool {
        match self {
            CaptureStep::QueryVirtualScreen => match reply {
                PlatformReply::VirtualScreen { x, y, width, height, last_error } => {
                    *width != 0 && *height != 0 ==> {
                        &&& i32::MIN <= *x + *width <= i32::MAX
                        &&& i32::MIN <= *y + *height <= i32::MAX
                    }
                },
                _ => false,
            },
            CaptureStep::CopyRegion(region) => match reply {
                PlatformReply::Bitmap { stride, data } => bitmap_fits(
                    *region,
                    *stride as int,
                    data@.len() as int,
                ),
                PlatformReply::Failed(_) => true,
                _ => false,
            },
            CaptureStep::Done(_) => false,
        }
    }

    /// The step is the start of a copy of `region`, or, where there is no
    /// region, the end of the capture with [`Error::InvalidArg`].
    pub open spec fn copies(&self, region: Option<CaptureRegion>) -> bool {
        match region {
            None => self matches CaptureStep::Done(Err(Error::InvalidArg)),
            Some(r) => *self == CaptureStep::CopyRegion(r),
        }
    }

    /// Decides what follows the platform's `reply` to this step's request.
    ///
    /// After the virtual screen's size: a failure with the last error code where
    /// its width or height is zero, else the capture of its rectangle as
    /// [`Screenshot::capture_rect`] decides it. After a copy: the failure's
    /// error code, or a BGRA screenshot of the region's size whose rows are the
    /// copied rows cut to the region's width.
    pub fn advance(self, reply: PlatformReply) -> (next: CaptureStep)
        requires
            self.answers(&reply),
        ensures
            self matches CaptureStep::QueryVirtualScreen ==> (match reply {
                PlatformReply::VirtualScreen { x, y, width, height, last_error } => if width == 0
                    || height == 0 {
                    next == CaptureStep::Done(Err(Error::Os(last_error)))
                } else {
                    next.copies(
                        region_of_edges(x, y, (x + width) as i32, (y + height) as i32),
                    )
                },
                _ => false,
            }),
            self matches CaptureStep::CopyRegion(region) ==> (match reply {
                PlatformReply::Failed(code) => next == CaptureStep::Done(Err(Error::Os(code))),
                PlatformReply::Bitmap { stride, data } => next matches CaptureStep::Done(Ok(shot))
                    && shot@ == (ScreenshotView {
                    pixels: bitmap_pixels(data@, stride as int, region.width, region.height),
                    width: region.width,
                    height: region.height,
                    format: PixelFormat::BGRA,
                }),
                _ => false,
            }),
            next matches CaptureStep::Done(Ok(shot)) ==> shot@.pixels.len() == image_len(
                shot@.width as int,
                shot@.height as int,
            ) && shot@.format == PixelFormat::BGRA,
    {
        match self {
            CaptureStep::QueryVirtualScreen => match reply {
                PlatformReply::VirtualScreen { x, y, width, height, last_error } => {
                    if width == 0 || height == 0 {
                        CaptureStep::Done(Err(Error::Os(last_error)))
                    } else {
                        Screenshot::capture_rect(Rect::new(x, y, x + width, y + height))
                    }
                },
                // no other reply answers a query
                _ => CaptureStep::Done(Err(Error::InvalidArg)),
            },
            CaptureStep::CopyRegion(region) => match reply {
                PlatformReply::Failed(code) => CaptureStep::Done(Err(Error::Os(code))),
                PlatformReply::Bitmap { stride, data } => {
                    proof {
                        assert(region.width * 4 <= image_len(
                            region.width as int,
                            region.height as int,
                        ) || region.height == 0) by (nonlinear_arith)
                            requires
                                region.height >= 0,
                                region.width >= 0,
                        ;
                        lemma_packed_rows_len(
                            data@,
                            stride as int,
                            region.width * 4,
                            region.height as nat,
                        );
                        assert(region.height * (region.width * 4) == image_len(
                            region.width as int,
                            region.height as int,
                        )) by (nonlinear_arith);
                    }
                    let pixels = trim_rows(data, stride, region.width, region.height);
                    CaptureStep::Done(Ok(Screenshot::new(pixels, region.width, region.height)))
                },
                // no other reply answers a copy
                _ => CaptureStep::Done(Err(Error::InvalidArg)),
            },
            // a finished capture answers nothing
            CaptureStep::Done(result) => CaptureStep::Done(result),
        }
    }
}

impl Screenshot {
    /// Captures the entire desktop across all monitors.
    ///
    /// This method unions all monitor rectangles and captures the combined area.
    /// Negative coordinates are supported for multi-monitor setups. The capture
    /// starts by asking the platform for the virtual screen's size.
    pub fn capture_desktop() -> (step: CaptureStep)
        ensures
            step matches CaptureStep::QueryVirtualScreen,
    {
        CaptureStep::QueryVirtualScreen
    }

    /// Captures a rectangular region of the desktop in screen coordinates.
    ///
    /// The `rect` parameter uses screen coordinates (pixels), where negative
    /// values are valid for multi-monitor setups with secondary displays. A
    /// rectangle with zero or negative size ends the capture with
    /// [`Error::InvalidArg`]; any other asks the platform to copy it.
    pub fn capture_rect(rect: Rect) -> (step: CaptureStep)
        requires
            rect_size_fits(rect),
        ensures
            step.copies(region_of_edges(rect.left(), rect.top(), rect.right(), rect.bottom())),
    {
        let width = rect.get_right() - rect.get_left();
        let height = rect.get_bottom() - rect.get_top();
        if width <= 0 || height <= 0 {
            return CaptureStep::Done(Err(Error::InvalidArg));
        }
        CaptureStep::CopyRegion(
            CaptureRegion {
                left: rect.get_left(),
                top: rect.get_top(),
                width: width as u32,
                height: height as u32,
            },
        )
    }

    /// Captures the screenshot of a UI element's bounding rectangle.
    ///
    /// `bounds` is what reading the element's bounding rectangle gave: its
    /// failure ends the capture with that error, and a rectangle is captured as
    /// [`Screenshot::capture_rect`] does.
    pub fn capture_element(bounds: Result<Rect, Error>) -> (step: CaptureStep)
        requires
            bounds matches Ok(rect) ==> rect_size_fits(rect),
        ensures
            match bounds {
                Ok(rect) => step.copies(
                    region_of_edges(rect.left(), rect.top(), rect.right(), rect.bottom()),
                ),
                Err(e) => step == CaptureStep::Done(Err(e)),
            },
    {
        match bounds {
            Ok(rect) => Self::capture_rect(rect),
            Err(e) => CaptureStep::Done(Err(e)),
        }
    }
}

} // verus!
