//! Frames for the MJPEG stream: JPEG encoding of a camera frame and the text
//! of the multipart HTTP response that carries the frames.
use vstd::prelude::*;
use vstd::slice::slice_to_vec;
use image::ImageEncoder;
use crate::text::{all_digits, decimal, digits_value, lemma_decimal_reads_back, occurs_in, push_decimal};

verus! {

/// JPEG quality of the streamed frames.
pub const JPEG_QUALITY: u8 = 50;

/// Boundary between the parts of the `/` stream.
pub const STREAM_BOUNDARY: &'static str = "ascii-webcam-boundary";

/// Boundary between the parts of the virtual-camera stream.
pub const OUTPUT_BOUNDARY: &'static str = "ascii-webcam";

/// The bytes that `image`'s JPEG encoder writes for `width` x `height` RGB
/// pixels `rgb` at `quality`.
pub uninterp spec fn jpeg_rgb8(rgb: Seq<u8>, width: u32, height: u32, quality: u8) -> Seq<u8>;

/// Whether a buffer of `len` bytes holds `width` x `height` RGB pixels, as
/// `image` checks it: the pixel byte count fits in `usize` and the buffer is
/// at least that long.
pub open spec fn holds_pixels(width: u32, height: u32, len: nat) -> bool {
    &&& 3 * width <= usize::MAX
    &&& 3 * width * height <= usize::MAX
    &&& 3 * width * height <= len
}

/// Whether the JPEG encoder accepts the dimensions: both from 1 to 65535.
pub open spec fn jpeg_size_ok(width: u32, height: u32) -> bool {
    1 <= width <= 65535 && 1 <= height <= 65535
}

/// `image::RgbImage::from_raw` followed by `into_raw`: the buffer back when it
/// holds the pixels (`image` checks the length with checked multiplication),
/// nothing otherwise.
#[verifier::external_body]
fn rgb_buffer_from_raw(width: u32, height: u32, buf: Vec<u8>) -> (res: Option<Vec<u8>>)
    ensures
        res is Some <==> holds_pixels(width, height, buf@.len()),
        res matches Some(b) ==> b@ == buf@,
{
    image::RgbImage::from_raw(width, height, buf).map(|img| img.into_raw())
}

/// `image`'s `JpegEncoder::write_image` for 8-bit RGB into a memory buffer.
/// The encoder refuses dimensions of 0 or above 65535; its other errors come
/// from the writer, which for a memory buffer does not fail. It asserts that
/// the buffer holds exactly the pixels, and it unwraps `image`'s own check that
/// the pixel byte count fits in `usize`; `requires` states both. The bytes are
/// named by `jpeg_rgb8`.
#[verifier::external_body]
fn jpeg_encode_rgb8(rgb: &[u8], width: u32, height: u32, quality: u8) -> (res: Option<Vec<u8>>)
    requires
        holds_pixels(width, height, rgb@.len()),
        rgb@.len() == 3 * width * height,
    ensures
        res is Some <==> jpeg_size_ok(width, height),
        res matches Some(b) ==> b@ == jpeg_rgb8(rgb@, width, height, quality),
{
    let mut out = std::io::Cursor::new(Vec::new());
    match image::codecs::jpeg::JpegEncoder::new_with_quality(&mut out, quality).write_image(
        rgb,
        width,
        height,
        image::ExtendedColorType::Rgb8,
    ) {
        Ok(()) => Some(out.into_inner()),
        Err(_) => None,
    }
}

/// Encodes a frame of `width` x `height` RGB pixels as a JPEG image of quality
/// 50, when the buffer holds the pixels and the encoder accepts the size.
pub fn encode_frame(rgb: &[u8], width: u32, height: u32) -> (jpeg: Option<Vec<u8>>)
    requires
        holds_pixels(width, height, rgb@.len()) ==> rgb@.len() == 3 * width * height,
    ensures
        jpeg is Some <==> holds_pixels(width, height, rgb@.len()) && jpeg_size_ok(width, height),
        jpeg matches Some(b) ==> b@ == jpeg_rgb8(rgb@, width, height, JPEG_QUALITY),
{
    match rgb_buffer_from_raw(width, height, slice_to_vec(rgb)) {
        Some(buf) => jpeg_encode_rgb8(buf.as_slice(), width, height, JPEG_QUALITY),
        None => None,
    }
}

/// The response head of the `/` stream, up to the first boundary.
pub open spec fn stream_head_text() -> Seq<char> {
    "HTTP/1.1 200 OK\r\nContent-Type: multipart/x-mixed-replace; boundary="@ + STREAM_BOUNDARY@
        + "\r\nConnection: close\r\nCache-Control: no-cache\r\n\r\n--"@ + STREAM_BOUNDARY@
        + "\r\n"@
}

/// The response head of the virtual-camera stream, up to the first boundary.
pub open spec fn output_head_text() -> Seq<char> {
    "HTTP/1.1 200 OK\r\nContent-Type: multipart/x-mixed-replace; boundary="@ + OUTPUT_BOUNDARY@
        + "\r\n\r\n--"@ + OUTPUT_BOUNDARY@ + "\r\n"@
}

/// The headers of a part holding `len` bytes of JPEG.
pub open spec fn part_head_text(len: nat) -> Seq<char> {
    "Content-Type: image/jpeg\r\nContent-Length: "@ + decimal(len) + "\r\n\r\n"@
}

/// What follows a part: the boundary that opens the next.
pub open spec fn part_tail_text(boundary: Seq<char>) -> Seq<char> {
    "\r\n--"@ + boundary + "\r\n"@
}

/// The response head of the `/` stream.
pub fn stream_head() -> (s: String)
    ensures
        s@ == stream_head_text(),
{
    let mut s = String::new();
    s.append("HTTP/1.1 200 OK\r\nContent-Type: multipart/x-mixed-replace; boundary=");
    s.append(STREAM_BOUNDARY);
    s.append("\r\nConnection: close\r\nCache-Control: no-cache\r\n\r\n--");
    s.append(STREAM_BOUNDARY);
    s.append("\r\n");
    s
}

/// The response head of the virtual-camera stream.
pub fn output_head() -> (s: String)
    ensures
        s@ == output_head_text(),
{
    let mut s = String::new();
    s.append("HTTP/1.1 200 OK\r\nContent-Type: multipart/x-mixed-replace; boundary=");
    s.append(OUTPUT_BOUNDARY);
    s.append("\r\n\r\n--");
    s.append(OUTPUT_BOUNDARY);
    s.append("\r\n");
    s
}

/// The headers of a part holding `len` bytes of JPEG.
pub fn part_head(len: usize) -> (s: String)
    ensures
        s@ == part_head_text(len as nat),
{
    let mut s = String::new();
    s.append("Content-Type: image/jpeg\r\nContent-Length: ");
    push_decimal(&mut s, len as u64);
    s.append("\r\n\r\n");
    s
}

/// The boundary line that follows a part.
pub fn part_tail(boundary: &str) -> (s: String)
    ensures
        s@ == part_tail_text(boundary@),
{
    let mut s = String::new();
    s.append("\r\n--");
    s.append(boundary);
    s.append("\r\n");
    s
}

} // verus!

verus! {

/// The headers of a part announce its length: between the fixed head and the
/// blank line stand only digits, and they read back as the part's byte count.
pub proof fn lemma_part_head_gives_length(len: nat)
    ensures
        ({
            let t = part_head_text(len);
            let digits = t.subrange(42, t.len() - 4);
            &&& t.len() >= 47
            &&& t.subrange(0, 42) == "Content-Type: image/jpeg\r\nContent-Length: "@
            &&& t.subrange(t.len() - 4, t.len() as int) == "\r\n\r\n"@
            &&& all_digits(digits)
            &&& digits_value(digits) == len
        }),
{
    reveal_strlit("Content-Type: image/jpeg\r\nContent-Length: ");
    reveal_strlit("\r\n\r\n");
    lemma_decimal_reads_back(len);
    let h = "Content-Type: image/jpeg\r\nContent-Length: "@;
    let d = decimal(len);
    let e = "\r\n\r\n"@;
    let t = part_head_text(len);
    assert(h.len() == 42);
    assert(t.subrange(0, 42) =~= h);
    assert(t.subrange(42, t.len() - 4) =~= d);
    assert(t.subrange(t.len() - 4, t.len() as int) =~= e);
}

/// The boundary line after a part carries the given boundary: it is `\r\n--`,
/// the boundary, and `\r\n`.
pub proof fn lemma_part_tail_gives_boundary(boundary: Seq<char>)
    ensures
        ({
            let t = part_tail_text(boundary);
            &&& t.len() == boundary.len() + 6
            &&& t.subrange(0, 4) == "\r\n--"@
            &&& t.subrange(4, boundary.len() as int + 4) == boundary
            &&& t.subrange(boundary.len() as int + 4, boundary.len() as int + 6) == "\r\n"@
        }),
{
    reveal_strlit("\r\n--");
    reveal_strlit("\r\n");
    let t = part_tail_text(boundary);
    assert(t.subrange(0, 4) =~= "\r\n--"@);
    assert(t.subrange(4, boundary.len() as int + 4) =~= boundary);
    assert(t.subrange(boundary.len() as int + 4, boundary.len() as int + 6) =~= "\r\n"@);
}

/// Each stream's head announces the boundary that its part tails use: the
/// head holds `boundary=` and the boundary, and it ends with the boundary line
/// that follows every part (without the line break that ends the part).
pub proof fn lemma_heads_match_tails()
    ensures
        occurs_in("boundary="@ + STREAM_BOUNDARY@ + "\r\n"@, stream_head_text()),
        occurs_in("boundary="@ + OUTPUT_BOUNDARY@ + "\r\n"@, output_head_text()),
        ({
            let h = stream_head_text();
            let t = part_tail_text(STREAM_BOUNDARY@).skip(2);
            t.len() <= h.len() && h.subrange(h.len() - t.len(), h.len() as int) == t
        }),
        ({
            let h = output_head_text();
            let t = part_tail_text(OUTPUT_BOUNDARY@).skip(2);
            t.len() <= h.len() && h.subrange(h.len() - t.len(), h.len() as int) == t
        }),
{
    reveal_strlit("\r\n--");
    reveal_strlit("\r\n");
    reveal_strlit("--");
    reveal_strlit("boundary=");
    reveal_strlit("HTTP/1.1 200 OK\r\nContent-Type: multipart/x-mixed-replace; boundary=");
    reveal_strlit("\r\nConnection: close\r\nCache-Control: no-cache\r\n\r\n--");
    reveal_strlit("\r\n\r\n--");
    let a = "HTTP/1.1 200 OK\r\nContent-Type: multipart/x-mixed-replace; "@;
    reveal_strlit("HTTP/1.1 200 OK\r\nContent-Type: multipart/x-mixed-replace; ");
    let s = STREAM_BOUNDARY@;
    let o = OUTPUT_BOUNDARY@;
    let hs = stream_head_text();
    let ho = output_head_text();
    let ns = "boundary="@ + s + "\r\n"@;
    let no = "boundary="@ + o + "\r\n"@;
    assert(hs.subrange(a.len() as int, a.len() as int + ns.len()) =~= ns);
    assert(ho.subrange(a.len() as int, a.len() as int + no.len()) =~= no);
    let ts = part_tail_text(s).skip(2);
    let to = part_tail_text(o).skip(2);
    assert(ts =~= "--"@ + s + "\r\n"@);
    assert(to =~= "--"@ + o + "\r\n"@);
    assert(hs.subrange(hs.len() - ts.len(), hs.len() as int) =~= ts);
    assert(ho.subrange(ho.len() - to.len(), ho.len() as int) =~= to);
}

} // verus!
