use uiautomation::capture::{CaptureStep, PlatformReply};
use uiautomation::screenshots::{PixelFormat, Screenshot};
use uiautomation::types::Rect;
use uiautomation::errors::PngStep;
use uiautomation::Error;

/// A simulated desktop: its virtual screen and the colour of each pixel, which
/// depends on the column only, so that every row of a capture is the same.
struct FakeDesktop {
    x: i32,
    y: i32,
    width: i32,
    height: i32,
    /// Extra bytes at the end of every copied row.
    padding: usize,
    /// Fail every copy with this error code.
    copy_error: Option<i32>,
}

impl FakeDesktop {
    fn new() -> Self {
        FakeDesktop { x: -320, y: -120, width: 960, height: 540, padding: 0, copy_error: None }
    }

    fn pixel(column: i32) -> [u8; 4] {
        let c = column.rem_euclid(65536) as u32;
        [(c % 256) as u8, (c / 256) as u8, ((c * 7) % 256) as u8, 255]
    }

    fn reply(&self, step: &CaptureStep) -> PlatformReply {
        match step {
            CaptureStep::QueryVirtualScreen => PlatformReply::VirtualScreen {
                x: self.x,
                y: self.y,
                width: self.width,
                height: self.height,
                last_error: 1400,
            },
            CaptureStep::CopyRegion(region) => {
                if let Some(code) = self.copy_error {
                    return PlatformReply::Failed(code);
                }
                let stride = region.width as usize * 4 + self.padding;
                let mut data = Vec::with_capacity(stride * region.height as usize);
                for _row in 0..region.height {
                    for col in 0..region.width {
                        data.extend_from_slice(&Self::pixel(region.left + col as i32));
                    }
                    data.extend(std::iter::repeat(0xAB).take(self.padding));
                }
                PlatformReply::Bitmap { stride, data }
            }
            CaptureStep::Done(_) => unreachable!(),
        }
    }

    /// Runs a capture to its end.
    fn run(&self, first: CaptureStep) -> Result<Screenshot, Error> {
        let mut step = first;
        loop {
            let reply = match &step {
                CaptureStep::Done(_) => break,
                other => self.reply(other),
            };
            step = step.advance(reply);
        }
        match step {
            CaptureStep::Done(result) => result,
            _ => unreachable!(),
        }
    }

    fn capture_desktop(&self) -> Result<Screenshot, Error> {
        self.run(Screenshot::capture_desktop())
    }

    fn capture_rect(&self, rect: Rect) -> Result<Screenshot, Error> {
        self.run(Screenshot::capture_rect(rect))
    }
}

#[test]
fn screenshots_test_capture_desktop() {
    let screenshot = FakeDesktop::new().capture_desktop().unwrap();
    assert!(screenshot.width() > 0);
    assert!(screenshot.height() > 0);
    assert!(!screenshot.pixels().is_empty());
    println!("Desktop screenshot: {}x{}", screenshot.width(), screenshot.height());
}

#[test]
fn screenshots_test_capture_rect() {
    let rect = Rect::new(0, 0, 100, 100);
    let screenshot = FakeDesktop::new().capture_rect(rect).unwrap();
    assert_eq!(screenshot.width(), 100);
    assert_eq!(screenshot.height(), 100);
}

#[test]
fn screenshots_test_to_rgba() {
    let rect = Rect::new(0, 0, 10, 10);
    let screenshot = FakeDesktop::new().capture_rect(rect).unwrap();
    let rgba = screenshot.to_rgba();
    assert_eq!(rgba.format(), PixelFormat::RGBA);
    assert_eq!(rgba.pixels().len(), 10 * 10 * 4);
}

#[test]
fn test_bmp_bytes() {
    let rect = Rect::new(0, 0, 10, 10);
    let screenshot = FakeDesktop::new().capture_rect(rect).unwrap();
    let bmp = screenshot.to_bmp_bytes();
    assert_eq!(&bmp[0..2], b"BM");
    assert!(bmp.len() > 54);
}

#[test]
fn test_test_capture_desktop() {
    let shot = FakeDesktop::new().capture_desktop().unwrap();

    assert!(shot.width() > 0, "screenshot width should be positive");
    assert!(shot.height() > 0, "screenshot height should be positive");
    assert!(!shot.pixels().is_empty(), "pixels should not be empty");

    let expected_size = (shot.width() * shot.height() * 4) as usize;
    assert_eq!(shot.pixels().len(), expected_size, "pixel buffer size mismatch");
    assert_eq!(shot.format(), PixelFormat::BGRA, "default format should be BGRA");

    println!("Desktop screenshot: {}x{}", shot.width(), shot.height());
}

#[test]
fn test_test_capture_rect() {
    let rect = Rect::new(0, 0, 100, 100);
    let shot = FakeDesktop::new().capture_rect(rect).unwrap();

    assert_eq!(shot.width(), 100);
    assert_eq!(shot.height(), 100);
    assert_eq!(shot.pixels().len(), 100 * 100 * 4);
}

#[test]
fn test_capture_rect_invalid() {
    let rect = Rect::new(0, 0, 0, 0);
    let result = FakeDesktop::new().capture_rect(rect);
    assert!(result.is_err(), "zero-size rect should fail");
}

#[test]
fn test_test_to_rgba() {
    let rect = Rect::new(0, 0, 10, 10);
    let shot = FakeDesktop::new().capture_rect(rect).unwrap();
    let rgba = shot.to_rgba();

    assert_eq!(rgba.format(), PixelFormat::RGBA);
    assert_eq!(rgba.width(), 10);
    assert_eq!(rgba.height(), 10);
    assert_eq!(rgba.pixels().len(), 10 * 10 * 4);

    // Verify channels are actually swapped (BGRA -> RGBA)
    // Take the first pixel from both formats and compare
    let bgr = &shot.pixels()[0..4];
    let rgb = &rgba.pixels()[0..4];
    assert_eq!(rgb[0], bgr[2], "R and B channels should be swapped");
    assert_eq!(rgb[1], bgr[1], "G channel should be unchanged");
    assert_eq!(rgb[2], bgr[0], "B and R channels should be swapped");
    assert_eq!(rgb[3], bgr[3], "A channel should be unchanged");
}

#[test]
fn test_to_bmp_bytes() {
    let rect = Rect::new(0, 0, 32, 32);
    let shot = FakeDesktop::new().capture_rect(rect).unwrap();
    let bmp = shot.to_bmp_bytes();

    assert_eq!(&bmp[0..2], b"BM");

    let expected_size = 14 + 40 + (32 * 32 * 4) as u32;
    assert_eq!(bmp.len() as u32, expected_size, "BMP size should match");
}

#[test]
fn test_multi_monitor_rect() {
    // Capture a large rect that spans typical screen area
    let rect = Rect::new(-100, -100, 200, 200);
    let result = FakeDesktop::new().capture_rect(rect);
    // This should succeed on multi-monitor setups where negative coords are valid
    if result.is_ok() {
        let shot = result.unwrap();
        assert_eq!(shot.width(), 300);
        assert_eq!(shot.height(), 300);
    }
}

#[test]
fn test_accessor_methods() {
    let shot = Screenshot::new(vec![0u8; 16], 2, 2);
    assert_eq!(shot.width(), 2);
    assert_eq!(shot.height(), 2);
    assert_eq!(shot.pixels().len(), 16);
    assert_eq!(shot.format(), PixelFormat::BGRA);
}

#[test]
fn test_bmp_header_fields() {
    let rect = Rect::new(0, 0, 50, 50);
    let shot = FakeDesktop::new().capture_rect(rect).unwrap();
    let data = shot.to_bmp_bytes();

    assert!(data.len() > 54, "BMP file should have header + pixel data");
    assert_eq!(&data[0..2], b"BM", "BMP signature mismatch");
    let file_size = u32::from_le_bytes(data[2..6].try_into().unwrap());
    assert_eq!(file_size as usize, data.len(), "BMP file size mismatch");
    let pixel_offset = u32::from_le_bytes(data[10..14].try_into().unwrap());
    assert_eq!(pixel_offset, 54, "BMP pixel data offset should be 54");
    let bmp_width = i32::from_le_bytes(data[18..22].try_into().unwrap());
    let bmp_height = i32::from_le_bytes(data[22..26].try_into().unwrap());
    assert_eq!(bmp_width, 50, "BMP width mismatch");
    assert_eq!(bmp_height, 50, "BMP height mismatch");
    assert_eq!(&data[54..], shot.pixels());
}

#[test]
fn test_bmp_exact_bytes() {
    let shot = Screenshot::new(vec![1, 2, 3, 4], 1, 1);
    let expected: Vec<u8> = vec![
        0x42, 0x4d, 58, 0, 0, 0, 0, 0, 0, 0, 54, 0, 0, 0, // file header
        40, 0, 0, 0, 1, 0, 0, 0, 1, 0, 0, 0, 1, 0, 32, 0, // size, width, height, planes, bpp
        0, 0, 0, 0, 4, 0, 0, 0, 0, 0, 0, 0, 0, 0, 0, 0, // compression, image size, resolution
        0, 0, 0, 0, 0, 0, 0, 0, // colours
        1, 2, 3, 4,
    ];
    assert_eq!(shot.to_bmp_bytes(), expected);
}

#[test]
fn test_png_signature() {
    let rect = Rect::new(0, 0, 50, 50);
    let shot = FakeDesktop::new().capture_rect(rect).unwrap();
    let data = shot.to_png_bytes().unwrap();
    assert_eq!(&data[0..8], &[0x89, 0x50, 0x4E, 0x47, 0x0D, 0x0A, 0x1A, 0x0A], "PNG signature mismatch");
    assert!(data.len() > 8);
    assert!(shot.to_bmp_bytes().len() > 54);
}

#[test]
fn test_png_refuses_bad_sizes() {
    let longer = Screenshot::new(vec![0u8; 20], 2, 2);
    assert!(matches!(longer.to_png_bytes(), Err(Error::Png(PngStep::Data, _))));
    let empty = Screenshot::new(Vec::new(), 0, 0);
    assert!(matches!(empty.to_png_bytes(), Err(Error::Png(PngStep::Header, _))));
    let no_rows = Screenshot::new(Vec::new(), 3, 0);
    assert!(matches!(no_rows.to_png_bytes(), Err(Error::Png(PngStep::Header, _))));
    let exact = Screenshot::new(vec![0u8; 16], 2, 2);
    assert!(exact.to_png_bytes().is_ok());
}

#[test]
fn test_to_rgba_exact() {
    let shot = Screenshot::new(
        vec![1, 2, 3, 4, 5, 6, 7, 8, 9, 10, 11, 12, 13, 14, 15, 16],
        2,
        2,
    );
    let rgba = shot.to_rgba();
    assert_eq!(
        rgba.pixels(),
        &[11, 10, 9, 12, 15, 14, 13, 16, 3, 2, 1, 4, 7, 6, 5, 8]
    );
    assert_eq!(rgba.width(), 2);
    assert_eq!(rgba.height(), 2);
}

#[test]
fn test_to_rgba_zeroes_bytes_past_image() {
    let shot = Screenshot::new(vec![1, 2, 3, 4, 9], 1, 1);
    assert_eq!(shot.to_rgba().pixels(), &[3, 2, 1, 4, 0]);
}

#[test]
fn test_to_rgba_leaves_rgba_unchanged() {
    let rect = Rect::new(-40, 10, -20, 25);
    let shot = FakeDesktop::new().capture_rect(rect).unwrap();
    let rgba = shot.to_rgba();
    let again = rgba.to_rgba();
    assert_eq!(again.format(), PixelFormat::RGBA);
    assert_eq!((again.width(), again.height()), (rgba.width(), rgba.height()));
    assert_eq!(again.pixels(), rgba.pixels());
}

#[test]
fn test_bmp_same_after_rgba() {
    let rect = Rect::new(3, 7, 12, 13);
    let shot = FakeDesktop::new().capture_rect(rect).unwrap();
    assert_eq!(shot.to_rgba().to_bmp_bytes(), shot.to_bmp_bytes());
    let small = Screenshot::new(
        vec![1, 2, 3, 4, 5, 6, 7, 8, 9, 10, 11, 12, 13, 14, 15, 16],
        2,
        2,
    );
    assert_eq!(small.to_rgba().to_bmp_bytes(), small.to_bmp_bytes());
}

#[test]
fn test_capture_trims_padded_rows() {
    let mut desktop = FakeDesktop::new();
    desktop.padding = 8;
    let shot = desktop.capture_rect(Rect::new(5, 0, 8, 2)).unwrap();
    assert_eq!(shot.width(), 3);
    assert_eq!(shot.height(), 2);
    let row: Vec<u8> = (5..8).flat_map(FakeDesktop::pixel).collect();
    let expected: Vec<u8> = row.iter().chain(row.iter()).copied().collect();
    assert_eq!(shot.pixels(), &expected[..]);
}

#[test]
fn test_capture_copy_failure() {
    let mut desktop = FakeDesktop::new();
    desktop.copy_error = Some(5);
    let result = desktop.capture_rect(Rect::new(0, 0, 4, 4));
    assert!(matches!(result, Err(Error::Os(5))));
}

#[test]
fn test_capture_desktop_empty_virtual_screen() {
    let mut desktop = FakeDesktop::new();
    desktop.width = 0;
    let result = desktop.capture_desktop();
    assert!(matches!(result, Err(Error::Os(1400))));
}

#[test]
fn test_capture_desktop_region() {
    let step = Screenshot::capture_desktop();
    assert!(matches!(step, CaptureStep::QueryVirtualScreen));
    let next = step.advance(PlatformReply::VirtualScreen {
        x: -1920,
        y: -8,
        width: 3840,
        height: 1088,
        last_error: 0,
    });
    match next {
        CaptureStep::CopyRegion(region) => {
            assert_eq!((region.left, region.top, region.width, region.height), (-1920, -8, 3840, 1088));
        }
        other => panic!("unexpected step {:?}", other),
    }
}

#[test]
fn test_capture_negative_size_rect() {
    let step = Screenshot::capture_rect(Rect::new(10, 10, 5, 20));
    assert!(matches!(step, CaptureStep::Done(Err(Error::InvalidArg))));
}

#[test]
fn test_capture_element() {
    let failed = Screenshot::capture_element(Err(Error::Os(87)));
    assert!(matches!(failed, CaptureStep::Done(Err(Error::Os(87)))));
    let shot = FakeDesktop::new()
        .run(Screenshot::capture_element(Ok(Rect::new(1, 2, 7, 6))))
        .unwrap();
    assert_eq!((shot.width(), shot.height()), (6, 4));
    assert_eq!(shot.pixels().len(), 6 * 4 * 4);
}

#[test]
fn test_rect_accessors() {
    let rect = Rect::new(-3, 4, 10, 20);
    assert_eq!(
        (rect.get_left(), rect.get_top(), rect.get_right(), rect.get_bottom()),
        (-3, 4, 10, 20)
    );
}
