# ascii-webcam

A terminal webcam that shows the live camera feed as coloured character art,
with a status bar, key controls, text captures, and optional MJPEG / v4l2
output.

## Layout

- `src/` is the verified library (Verus):
  - `glyphs.rs`: the brightness ramp, the gray-level table and the glyph bitmaps.
  - `render.rs`: rendering a frame into terminal escape text, plain text and
    an RGB image; the image is stated pixel by pixel.
  - `state.rs`: the viewer's settings and counters and what each key does.
  - `camera.rs`: the order in which camera formats are tried and the error
    messages.
  - `stream.rs`: JPEG encoding of frames and the multipart HTTP framing.
  - `v4l2.rs`: the pixel format announced to a v4l2loopback device.
  - `logging.rs`: where logs and captures are kept.
  - `text.rs`: decimal numerals and substring search.
- `app/` is the program: terminal and camera I/O, threads, networking, and the
  floating-point parts (frame fit and sampling, gray levels, YUYV conversion,
  frame rate).
- `tests/` runs the library, including a comparison of whole rendered frames
  against a floating-point model of the renderer.
