# uiautomation screenshots

Screen captures as 32-bit pixel buffers, verified with Verus.

- `src/screenshots.rs`: the `Screenshot` type, the BGRA to RGBA conversion, and
  BMP and PNG encoding.
- `src/capture.rs`: the decisions of a capture. A platform layer answers each
  `CaptureStep` request (the virtual screen's size, or the pixels of a region)
  with a `PlatformReply`; `CaptureStep::advance` says what comes next.
- `src/png_encoding.rs`: the call into the `png` crate.
- `src/types.rs`, `src/errors.rs`: rectangles and errors.
- `app/lib.rs`: the Windows GDI calls that answer capture requests, and the
  functions that write BMP and PNG files.
