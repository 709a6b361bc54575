//! Renders a camera frame as coloured character art: the escape-sequence text
//! for the terminal, the plain characters for captures, and an RGB image in
//! which every character is drawn as its glyph over its cell colour.
use vstd::prelude::*;
use crate::glyphs::{char_bitmap, glyph_bit, CHAR_PX_H, CHAR_PX_W};
use crate::text::{
    all_digits, decimal, is_digit, lemma_decimal_injective, lemma_decimal_reads_back,
    lemma_digits_split_unique, pad3, push_char, push_decimal, push_decimal_pad3,
};
use crate::state::ViewState;

verus! {

/// How the camera frame is oriented and how many terminal rows hold the art.
pub struct FrameGeometry {
    /// Whether the frame is read with rows and columns swapped.
    pub transposed: bool,
    /// Width of the frame as drawn.
    pub frame_w: u32,
    /// Height of the frame as drawn.
    pub frame_h: u32,
    /// Terminal rows available to the art (all but the status bar).
    pub art_rows: u32,
}

/// Rows of the terminal left for the art: all but the last, and at least one.
pub open spec fn art_rows_for(term_h: u32) -> u32 {
    if term_h > 1 {
        (term_h - 1) as u32
    } else {
        1
    }
}

/// Orients the frame: it is transposed when asked or when it is portrait,
/// and the art takes all terminal rows but the status bar.
pub fn frame_geometry(orig_w: u32, orig_h: u32, transpose: bool, term_h: u32) -> (g: FrameGeometry)
    ensures
        g.transposed == (transpose || orig_w < orig_h),
        g.frame_w == if g.transposed { orig_h } else { orig_w },
        g.frame_h == if g.transposed { orig_w } else { orig_h },
        g.art_rows == art_rows_for(term_h),
        !transpose ==> g.frame_w >= g.frame_h,
{
    let transposed = transpose || orig_w < orig_h;
    let (frame_w, frame_h) = if transposed {
        (orig_h, orig_w)
    } else {
        (orig_w, orig_h)
    };
    let art_rows = if term_h > 1 {
        term_h - 1
    } else {
        1
    };
    FrameGeometry { transposed, frame_w, frame_h, art_rows }
}

/// Where the picture stands in the terminal and which frame pixels it samples.
pub struct Placement {
    /// Columns of the picture.
    pub render_w: u32,
    /// Rows of the picture.
    pub render_h: u32,
    /// Blank columns left of the picture.
    pub pad_x: u32,
    /// Blank rows above the picture.
    pub pad_y: u32,
    /// For each picture column, the frame column it samples.
    pub src_xs: Vec<u32>,
    /// For each picture row, the frame row it samples.
    pub src_ys: Vec<u32>,
}

/// One character of the picture with the colour of the pixel it samples.
#[derive(Clone, Copy)]
pub struct Cell {
    pub r: u8,
    pub g: u8,
    pub b: u8,
    pub ch: char,
}

/// Everything that decides what a frame renders to.
pub struct Scene {
    pub raw: Seq<u8>,
    pub gray: Seq<u8>,
    pub lut: Seq<char>,
    pub orig_w: u32,
    pub frame_w: u32,
    pub transposed: bool,
    pub mirror: bool,
    pub bw: bool,
    pub art_rows: u32,
    pub render_w: u32,
    pub render_h: u32,
    pub pad_x: u32,
    pub pad_y: u32,
    pub xs: Seq<u32>,
    pub ys: Seq<u32>,
}

/// The scene of a call of `render`.
pub open spec fn scene_of(
    raw: Seq<u8>,
    gray: Seq<u8>,
    orig_w: u32,
    orig_h: u32,
    state: ViewState,
    place: Placement,
    term_h: u32,
) -> Scene {
    let transposed = state.transpose || orig_w < orig_h;
    Scene {
        raw,
        gray,
        lut: state.lut@,
        orig_w,
        frame_w: if transposed { orig_h } else { orig_w },
        transposed,
        mirror: state.mirror,
        bw: state.bw,
        art_rows: art_rows_for(term_h),
        render_w: place.render_w,
        render_h: place.render_h,
        pad_x: place.pad_x,
        pad_y: place.pad_y,
        xs: place.src_xs@,
        ys: place.src_ys@,
    }
}

/// Escape text that moves the cursor to `row`, `col` (both counted from 1).
pub open spec fn goto_text(row: nat, col: nat) -> Seq<char> {
    "\x1b["@ + decimal(row) + ";"@ + decimal(col) + "H"@
}

/// Escape text that sets the foreground colour and prints the character.
pub open spec fn cell_text(c: Cell, bw: bool) -> Seq<char> {
    if bw {
        "\x1b[38;2;255;255;255m"@.push(c.ch)
    } else {
        ("\x1b[38;2;"@ + decimal(c.r as nat) + ";"@ + decimal(c.g as nat) + ";"@ + decimal(
            c.b as nat,
        ) + "m"@).push(c.ch)
    }
}

/// The text of the first `n` cells of a row.
pub open spec fn cells_text(cells: Seq<Cell>, bw: bool, n: int) -> Seq<char>
    decreases n,
{
    if n <= 0 {
        Seq::empty()
    } else {
        cells_text(cells, bw, n - 1) + cell_text(cells[n - 1], bw)
    }
}

/// The two values of a pixel channel: the cell colour, or a third of it where
/// the glyph covers the pixel.
pub open spec fn shade_byte(v: u8, on: bool) -> u8 {
    if on {
        (v * 3 / 10) as u8
    } else {
        v
    }
}

/// The three bytes of pixel `(dx, dy)` of a cell.
pub open spec fn pixel_bytes(c: Cell, dy: u32, dx: u32) -> Seq<u8> {
    let on = glyph_bit(c.ch, dy, dx);
    seq![shade_byte(c.r, on), shade_byte(c.g, on), shade_byte(c.b, on)]
}

/// Pixels `0..n` of line `dy` of a cell.
pub open spec fn strip_bytes(c: Cell, dy: u32, n: int) -> Seq<u8>
    decreases n,
{
    if n <= 0 {
        Seq::empty()
    } else {
        strip_bytes(c, dy, n - 1) + pixel_bytes(c, dy, (n - 1) as u32)
    }
}

/// Pixel line `dy` of the first `n` cells of a row.
pub open spec fn line_bytes(cells: Seq<Cell>, dy: u32, n: int) -> Seq<u8>
    decreases n,
{
    if n <= 0 {
        Seq::empty()
    } else {
        line_bytes(cells, dy, n - 1) + strip_bytes(cells[n - 1], dy, 6)
    }
}

/// The first `n` pixel lines of a row of cells.
pub open spec fn block_bytes(cells: Seq<Cell>, n: int) -> Seq<u8>
    decreases n,
{
    if n <= 0 {
        Seq::empty()
    } else {
        block_bytes(cells, n - 1) + line_bytes(cells, (n - 1) as u32, cells.len() as int)
    }
}

/// `n` zero bytes.
pub open spec fn zeros(n: int) -> Seq<u8> {
    Seq::new(n as nat, |i: int| 0u8)
}

impl Scene {
    /// Whether terminal row `y` shows part of the picture.
    pub open spec fn in_picture(self, y: int) -> bool {
        self.pad_y <= y && y < self.pad_y + self.render_h
    }

    /// The column of the drawn frame that picture column `x` shows: the
    /// sampled column, counted from the right when the picture is mirrored.
    pub open spec fn drawn_column(self, x: int) -> int {
        if self.mirror {
            self.frame_w - 1 - self.xs[x]
        } else {
            self.xs[x] as int
        }
    }

    /// The number, counted row by row through `raw`, of the pixel at column
    /// `c` and row `r` of the drawn frame. A transposed frame is drawn with
    /// the camera's rows as its columns.
    pub open spec fn drawn_pixel(self, c: int, r: int) -> int {
        if self.transposed {
            c * self.orig_w + r
        } else {
            r * self.frame_w + c
        }
    }

    /// The number of the pixel that column `x` of picture row `j` samples.
    pub open spec fn pixel_number(self, x: int, j: int) -> int {
        self.drawn_pixel(self.drawn_column(x), self.ys[j] as int)
    }

    /// The first byte in `raw` of that pixel.
    pub open spec fn pixel_index(self, x: int, j: int) -> int {
        3 * self.pixel_number(x, j)
    }

    /// What sampling column `x` of picture row `j` needs: the index arithmetic
    /// stays within `u32`, and the pixel and its gray level exist.
    pub open spec fn sample_ok(self, x: int, j: int) -> bool {
        &&& self.mirror ==> self.xs[x] < self.frame_w
        &&& self.pixel_number(x, j) <= u32::MAX
        &&& self.pixel_index(x, j) + 2 < self.raw.len()
        &&& self.pixel_number(x, j) < self.gray.len()
    }

    /// Every cell of the picture that a terminal row shows can be sampled.
    pub open spec fn samples_ok(self) -> bool {
        forall|x: int, j: int|
            0 <= x < self.render_w && 0 <= j < self.render_h && self.pad_y + j < self.art_rows
                ==> #[trigger] self.sample_ok(x, j)
    }

    /// The cell at column `x` of picture row `j`.
    pub open spec fn cell(self, x: int, j: int) -> Cell {
        let p = self.pixel_index(x, j);
        Cell {
            r: self.raw[p],
            g: self.raw[p + 1],
            b: self.raw[p + 2],
            ch: self.lut[self.gray[self.pixel_number(x, j)] as int],
        }
    }

    /// The cells of picture row `j`.
    pub open spec fn row_cells(self, j: int) -> Seq<Cell> {
        Seq::new(self.render_w as nat, |x: int| self.cell(x, j))
    }

    /// The escape text of terminal row `y`.
    pub open spec fn row_text(self, y: int) -> Seq<char> {
        if self.in_picture(y) {
            goto_text((y + 1) as nat, (self.pad_x + 1) as nat) + cells_text(
                self.row_cells(y - self.pad_y),
                self.bw,
                self.render_w as int,
            )
        } else {
            goto_text((y + 1) as nat, 1)
        }
    }

    /// The escape text of the first `n` terminal rows.
    pub open spec fn rows_text(self, n: int) -> Seq<char>
        decreases n,
    {
        if n <= 0 {
            Seq::empty()
        } else {
            self.rows_text(n - 1) + self.row_text(n - 1)
        }
    }

    /// The plain characters of terminal row `y`, ended by a newline.
    pub open spec fn plain_row(self, y: int) -> Seq<char> {
        if self.in_picture(y) {
            Seq::new(self.render_w as nat, |x: int| self.cell(x, y - self.pad_y).ch).push('\n')
        } else {
            seq!['\n']
        }
    }

    /// The plain characters of the first `n` terminal rows.
    pub open spec fn plain_rows(self, n: int) -> Seq<char>
        decreases n,
    {
        if n <= 0 {
            Seq::empty()
        } else {
            self.plain_rows(n - 1) + self.plain_row(n - 1)
        }
    }

    /// The image bytes of terminal row `y`: ten pixel lines.
    pub open spec fn row_image(self, y: int) -> Seq<u8> {
        if self.in_picture(y) {
            block_bytes(self.row_cells(y - self.pad_y), 10)
        } else {
            zeros(180 * self.render_w)
        }
    }

    /// The image bytes of the first `n` terminal rows.
    pub open spec fn image(self, n: int) -> Seq<u8>
        decreases n,
    {
        if n <= 0 {
            Seq::empty()
        } else {
            self.image(n - 1) + self.row_image(n - 1)
        }
    }
}

/// The status-bar flag: `c` when set, a blank otherwise.
pub open spec fn flag_char(on: bool, c: char) -> char {
    if on {
        c
    } else {
        ' '
    }
}

/// The start of the status bar on terminal row `hud_row`: position, colours
/// and the frame rate.
pub open spec fn hud_head(hud_row: u32, fps: u32) -> Seq<char> {
    "\x1b["@ + decimal(hud_row as nat) + ";1H\x1b[48;2;30;30;30m\x1b[38;2;180;180;180m "@ + pad3(
        decimal(fps as nat),
    ) + " FPS \u{2503} "@
}

/// The end of the status bar: frame and picture sizes and the key help.
pub open spec fn hud_tail(orig_w: u32, orig_h: u32, render_w: u32, render_h: u32) -> Seq<char> {
    " \u{2503} "@ + decimal(orig_w as nat) + "x"@ + decimal(orig_h as nat) + " -> "@ + decimal(
        render_w as nat,
    ) + "x"@ + decimal(render_h as nat)
        + " \u{2503} q:quit  r:inv  m:mir  t:trn  b:bw  s:v4l2  c:capture\x1b[K\x1b[0m"@
}

/// The status bar on terminal row `hud_row`.
pub open spec fn hud_text(
    hud_row: u32,
    fps: u32,
    flags: Seq<char>,
    orig_w: u32,
    orig_h: u32,
    render_w: u32,
    render_h: u32,
) -> Seq<char> {
    hud_head(hud_row, fps) + flags + hud_tail(orig_w, orig_h, render_w, render_h)
}

/// The five status flags: mirror, invert, transposed, black and white, output.
pub open spec fn hud_flags(
    mirror: bool,
    invert: bool,
    transposed: bool,
    bw: bool,
    output: bool,
) -> Seq<char> {
    seq![
        flag_char(mirror, 'M'),
        flag_char(invert, 'I'),
        flag_char(transposed, 'T'),
        flag_char(bw, 'B'),
        flag_char(output, 'V'),
    ]
}

/// The whole terminal text of a frame: synchronised update, clear, rows, bar.
pub open spec fn frame_text(rows: Seq<char>, hud: Seq<char>) -> Seq<char> {
    "\x1b[?2026h\x1b[H\x1b[2J"@ + rows + hud + "\x1b[?2026l"@
}

/// The output of rendering one frame.
pub struct RenderOutput {
    /// Text for the terminal.
    pub ansi: String,
    /// RGB bytes of the picture drawn with glyphs, row by row.
    pub image: Vec<u8>,
    /// Width of the image in pixels.
    pub image_w: u32,
    /// Height of the image in pixels.
    pub image_h: u32,
}

fn push_goto(s: &mut String, row: u32, col: u32)
    ensures
        final(s)@ == old(s)@ + goto_text(row as nat, col as nat),
{
    let ghost start = s@;
    s.append("\x1b[");
    push_decimal(s, row as u64);
    s.append(";");
    push_decimal(s, col as u64);
    s.append("H");
    assert(s@ =~= start + goto_text(row as nat, col as nat));
}

fn push_cell_text(s: &mut String, c: Cell, bw: bool)
    ensures
        final(s)@ == old(s)@ + cell_text(c, bw),
{
    let ghost start = s@;
    if bw {
        s.append("\x1b[38;2;255;255;255m");
    } else {
        s.append("\x1b[38;2;");
        push_decimal(s, c.r as u64);
        s.append(";");
        push_decimal(s, c.g as u64);
        s.append(";");
        push_decimal(s, c.b as u64);
        s.append("m");
    }
    push_char(s, c.ch);
    assert(s@ =~= start + cell_text(c, bw));
}

fn push_pixel(img: &mut Vec<u8>, c: Cell, dy: u32, dx: u32)
    requires
        dy < 10,
        dx < 6,
    ensures
        final(img)@ == old(img)@ + pixel_bytes(c, dy, dx),
{
    let bitmap = char_bitmap(c.ch);
    let bit = (bitmap >> (dy * CHAR_PX_W + dx)) & 1;
    let ghost on = glyph_bit(c.ch, dy, dx);
    assert(on == (bit == 1));
    let (pr, pg, pb) = if bit == 1 {
        ((c.r as u16 * 3 / 10) as u8, (c.g as u16 * 3 / 10) as u8, (c.b as u16 * 3 / 10) as u8)
    } else {
        (c.r, c.g, c.b)
    };
    let ghost start = img@;
    img.push(pr);
    img.push(pg);
    img.push(pb);
    assert(img@ =~= start + pixel_bytes(c, dy, dx));
}

fn push_strip(img: &mut Vec<u8>, c: Cell, dy: u32)
    requires
        dy < 10,
    ensures
        final(img)@ == old(img)@ + strip_bytes(c, dy, 6),
{
    let ghost start = img@;
    for dx in 0..CHAR_PX_W
        invariant
            dy < 10,
            img@ == start + strip_bytes(c, dy, dx as int),
    {
        push_pixel(img, c, dy, dx);
        assert(img@ =~= start + strip_bytes(c, dy, dx + 1)) by {
            assert(strip_bytes(c, dy, dx + 1) == strip_bytes(c, dy, dx as int) + pixel_bytes(
                c,
                dy,
                dx,
            ));
        }
    }
}

fn push_line(img: &mut Vec<u8>, cells: &Vec<Cell>, dy: u32)
    requires
        dy < 10,
    ensures
        final(img)@ == old(img)@ + line_bytes(cells@, dy, cells@.len() as int),
{
    let ghost start = img@;
    for x in 0..cells.len()
        invariant
            dy < 10,
            img@ == start + line_bytes(cells@, dy, x as int),
    {
        push_strip(img, cells[x], dy);
        assert(img@ =~= start + line_bytes(cells@, dy, x + 1)) by {
            assert(line_bytes(cells@, dy, x + 1) == line_bytes(cells@, dy, x as int)
                + strip_bytes(cells@[x as int], dy, 6));
        }
    }
}

fn push_block(img: &mut Vec<u8>, cells: &Vec<Cell>)
    ensures
        final(img)@ == old(img)@ + block_bytes(cells@, 10),
{
    let ghost start = img@;
    for dy in 0..CHAR_PX_H
        invariant
            img@ == start + block_bytes(cells@, dy as int),
    {
        push_line(img, cells, dy);
        assert(img@ =~= start + block_bytes(cells@, dy + 1)) by {
            assert(block_bytes(cells@, dy + 1) == block_bytes(cells@, dy as int) + line_bytes(
                cells@,
                dy,
                cells@.len() as int,
            ));
        }
    }
}

fn push_zeros(img: &mut Vec<u8>, n: usize)
    ensures
        final(img)@ == old(img)@ + zeros(n as int),
{
    let ghost start = img@;
    for i in 0..n
        invariant
            img@ == start + zeros(i as int),
    {
        img.push(0);
        assert(img@ =~= start + zeros(i + 1));
    }
}

} // verus!

verus! {

/// The inputs of one frame, held together while it is sampled.
struct Sampler<'a> {
    raw: &'a [u8],
    gray: &'a [u8],
    lut: &'a [char; 256],
    place: &'a Placement,
    orig_w: u32,
    frame_w: u32,
    transposed: bool,
    mirror: bool,
    bw: bool,
    art_rows: u32,
}

impl<'a> Sampler<'a> {
    spec fn scene(&self) -> Scene {
        Scene {
            raw: self.raw@,
            gray: self.gray@,
            lut: self.lut@,
            orig_w: self.orig_w,
            frame_w: self.frame_w,
            transposed: self.transposed,
            mirror: self.mirror,
            bw: self.bw,
            art_rows: self.art_rows,
            render_w: self.place.render_w,
            render_h: self.place.render_h,
            pad_x: self.place.pad_x,
            pad_y: self.place.pad_y,
            xs: self.place.src_xs@,
            ys: self.place.src_ys@,
        }
    }

    spec fn ready(&self) -> bool {
        &&& self.place.src_xs@.len() == self.place.render_w
        &&& self.place.src_ys@.len() == self.place.render_h
        &&& self.scene().samples_ok()
    }

    /// Samples column `x` of picture row `j`.
    fn cell(&self, x: u32, j: u32) -> (c: Cell)
        requires
            self.ready(),
            x < self.place.render_w,
            j < self.place.render_h,
            self.place.pad_y + j < self.art_rows,
        ensures
            c == self.scene().cell(x as int, j as int),
    {
        let ghost sc = self.scene();
        assert(sc.sample_ok(x as int, j as int));
        let raw_len = self.raw.len();
        let src_y = self.place.src_ys[j as usize];
        let src_x = self.place.src_xs[x as usize];
        let sx = if self.mirror {
            self.frame_w - 1 - src_x
        } else {
            src_x
        };
        let idx: usize = if self.transposed {
            (sx * self.orig_w + src_y) as usize * 3
        } else {
            (src_y * self.frame_w + sx) as usize * 3
        };
        assert(idx == sc.pixel_index(x as int, j as int));
        assert(idx / 3 == sc.pixel_number(x as int, j as int));
        let (r, g, b) = (self.raw[idx], self.raw[idx + 1], self.raw[idx + 2]);
        let level = self.gray[idx / 3];
        let ch = self.lut[level as usize];
        Cell { r, g, b, ch }
    }

    /// Appends the escape text and plain characters of picture row `j` and
    /// returns its cells.
    fn row(&self, j: u32, ansi: &mut String, plain: &mut String) -> (cells: Vec<Cell>)
        requires
            self.ready(),
            j < self.place.render_h,
            self.place.pad_y + j < self.art_rows,
        ensures
            cells@ == self.scene().row_cells(j as int),
            final(ansi)@ == old(ansi)@ + cells_text(
                self.scene().row_cells(j as int),
                self.bw,
                self.place.render_w as int,
            ),
            final(plain)@ == old(plain)@ + Seq::new(
                self.place.render_w as nat,
                |x: int| self.scene().cell(x, j as int).ch,
            ),
    {
        let ghost sc = self.scene();
        let ghost a0 = ansi@;
        let ghost p0 = plain@;
        let mut cells: Vec<Cell> = Vec::new();
        for x in 0..self.place.render_w
            invariant
                self.ready(),
                j < self.place.render_h,
                self.place.pad_y + j < self.art_rows,
                sc == self.scene(),
                cells@.len() == x,
                forall|k: int| 0 <= k < x ==> cells@[k] == sc.cell(k, j as int),
                ansi@ == a0 + cells_text(sc.row_cells(j as int), self.bw, x as int),
                plain@ == p0 + Seq::new(x as nat, |k: int| sc.cell(k, j as int).ch),
        {
            let c = self.cell(x, j);
            push_cell_text(ansi, c, self.bw);
            push_char(plain, c.ch);
            cells.push(c);
            assert(sc.row_cells(j as int)[x as int] == c);
            assert(ansi@ =~= a0 + cells_text(sc.row_cells(j as int), self.bw, x + 1)) by {
                assert(cells_text(sc.row_cells(j as int), self.bw, x + 1) == cells_text(
                    sc.row_cells(j as int),
                    self.bw,
                    x as int,
                ) + cell_text(sc.row_cells(j as int)[x as int], self.bw));
            }
            assert(plain@ =~= p0 + Seq::new((x + 1) as nat, |k: int| sc.cell(k, j as int).ch));
        }
        assert(cells@ =~= sc.row_cells(j as int));
        cells
    }
}

fn push_hud_head(s: &mut String, hud_row: u32, fps: u32)
    ensures
        final(s)@ == old(s)@ + hud_head(hud_row, fps),
{
    let ghost start = s@;
    s.append("\x1b[");
    push_decimal(s, hud_row as u64);
    s.append(";1H\x1b[48;2;30;30;30m\x1b[38;2;180;180;180m ");
    push_decimal_pad3(s, fps as u64);
    s.append(" FPS \u{2503} ");
    assert(s@ =~= start + hud_head(hud_row, fps));
}

fn push_hud_tail(s: &mut String, orig_w: u32, orig_h: u32, render_w: u32, render_h: u32)
    ensures
        final(s)@ == old(s)@ + hud_tail(orig_w, orig_h, render_w, render_h),
{
    let ghost start = s@;
    s.append(" \u{2503} ");
    push_decimal(s, orig_w as u64);
    s.append("x");
    push_decimal(s, orig_h as u64);
    s.append(" -> ");
    push_decimal(s, render_w as u64);
    s.append("x");
    push_decimal(s, render_h as u64);
    s.append(" \u{2503} q:quit  r:inv  m:mir  t:trn  b:bw  s:v4l2  c:capture\x1b[K\x1b[0m");
    assert(s@ =~= start + hud_tail(orig_w, orig_h, render_w, render_h));
}

fn push_hud(
    s: &mut String,
    hud_row: u32,
    fps: u32,
    flags: [char; 5],
    orig_w: u32,
    orig_h: u32,
    render_w: u32,
    render_h: u32,
)
    ensures
        final(s)@ == old(s)@ + hud_text(hud_row, fps, flags@, orig_w, orig_h, render_w, render_h),
{
    let ghost start = s@;
    push_hud_head(s, hud_row, fps);
    let ghost before_flags = s@;
    for k in 0..5usize
        invariant
            s@ == before_flags + flags@.take(k as int),
    {
        push_char(s, flags[k]);
        assert(flags@.take(k + 1) =~= flags@.take(k as int).push(flags@[k as int]));
    }
    assert(flags@.take(5) =~= flags@);
    push_hud_tail(s, orig_w, orig_h, render_w, render_h);
    assert(s@ =~= start + hud_text(hud_row, fps, flags@, orig_w, orig_h, render_w, render_h));
}

/// What `render` needs of its inputs: the placement has one source column per
/// picture column and one source row per picture row, every shown cell can be
/// sampled, and the sizes and counters stay within their integer types.
pub open spec fn render_ok(
    raw: Seq<u8>,
    gray: Seq<u8>,
    orig_w: u32,
    orig_h: u32,
    state: ViewState,
    place: Placement,
    term_w: u32,
    term_h: u32,
) -> bool {
    let sc = scene_of(raw, gray, orig_w, orig_h, state, place, term_h);
    &&& place.src_xs@.len() == place.render_w
    &&& place.src_ys@.len() == place.render_h
    &&& sc.samples_ok()
    &&& place.pad_x < u32::MAX
    &&& place.render_w * 6 <= u32::MAX
    &&& sc.art_rows * 10 <= u32::MAX
    &&& place.render_w * 6 * (sc.art_rows * 10) * 3 <= u32::MAX
    &&& term_w * sc.art_rows * 24 + 256 <= u32::MAX
    &&& state.frame_count < u64::MAX
}

/// Renders a frame of `orig_w` x `orig_h` RGB pixels, of which `gray` gives the
/// gray level of each, into `term_h` terminal rows: the picture as placed by
/// `place`, then the status bar with `fps`. Counts the frame and keeps its
/// plain characters for captures.
pub fn render(
    raw: &[u8],
    gray: &[u8],
    orig_w: u32,
    orig_h: u32,
    state: &mut ViewState,
    place: &Placement,
    term_w: u32,
    term_h: u32,
    fps: u32,
) -> (out: RenderOutput)
    requires
        render_ok(raw@, gray@, orig_w, orig_h, *old(state), *place, term_w, term_h),
    ensures
        out.ansi@ == frame_text(
            scene_of(raw@, gray@, orig_w, orig_h, *old(state), *place, term_h).rows_text(
                art_rows_for(term_h) as int,
            ),
            hud_text(
                term_h,
                fps,
                hud_flags(
                    old(state).mirror,
                    old(state).invert,
                    old(state).transpose || orig_w < orig_h,
                    old(state).bw,
                    old(state).output_enabled,
                ),
                orig_w,
                orig_h,
                place.render_w,
                place.render_h,
            ),
        ),
        out.image@ == scene_of(raw@, gray@, orig_w, orig_h, *old(state), *place, term_h).image(
            art_rows_for(term_h) as int,
        ),
        out.image_w == place.render_w * 6,
        out.image_h == art_rows_for(term_h) * 10,
        final(state).last_frame_plain@ == scene_of(
            raw@,
            gray@,
            orig_w,
            orig_h,
            *old(state),
            *place,
            term_h,
        ).plain_rows(art_rows_for(term_h) as int),
        final(state).frame_count == old(state).frame_count + 1,
        final(state).invert == old(state).invert,
        final(state).mirror == old(state).mirror,
        final(state).transpose == old(state).transpose,
        final(state).bw == old(state).bw,
        final(state).output_enabled == old(state).output_enabled,
        final(state).lut == old(state).lut,
        final(state).capture_index == old(state).capture_index,
{
    let ghost sc = scene_of(raw@, gray@, orig_w, orig_h, *state, *place, term_h);
    proof {
        let rw = place.render_w as int;
        let ar = sc.art_rows as int;
        assert(ar >= 1);
        assert(rw * 180 <= rw * 6 * (ar * 10) * 3) by (nonlinear_arith)
            requires
                ar >= 1,
                rw >= 0,
        ;
    }
    let geo = frame_geometry(orig_w, orig_h, state.transpose, term_h);
    let art_rows = geo.art_rows;
    state.frame_count = state.frame_count + 1;
    let img_w = place.render_w * CHAR_PX_W;
    let img_h = art_rows * CHAR_PX_H;
    let sampler = Sampler {
        raw,
        gray,
        lut: &state.lut,
        place,
        orig_w,
        frame_w: geo.frame_w,
        transposed: geo.transposed,
        mirror: state.mirror,
        bw: state.bw,
        art_rows,
    };
    assert(sampler.scene() == sc);
    let mut ansi = String::new();
    ansi.append("\x1b[?2026h\x1b[H\x1b[2J");
    let mut plain = String::new();
    let mut img: Vec<u8> = Vec::new();
    let pad_x = place.pad_x;
    let pad_y = place.pad_y;
    let render_h = place.render_h;
    for y in 0..art_rows
        invariant
            sampler.ready(),
            sampler.scene() == sc,
            art_rows == sc.art_rows,
            pad_x == sc.pad_x,
            pad_y == sc.pad_y,
            render_h == sc.render_h,
            place.render_w == sc.render_w,
            pad_x < u32::MAX,
            sc.render_w * 180 <= usize::MAX,
            ansi@ == "\x1b[?2026h\x1b[H\x1b[2J"@ + sc.rows_text(y as int),
            plain@ == sc.plain_rows(y as int),
            img@ == sc.image(y as int),
    {
        let in_picture = y >= pad_y && y - pad_y < render_h;
        let col = if in_picture {
            pad_x + 1
        } else {
            1
        };
        let ghost p0 = plain@;
        push_goto(&mut ansi, y + 1, col);
        if in_picture {
            let j = y - pad_y;
            let cells = sampler.row(j, &mut ansi, &mut plain);
            push_char(&mut plain, '\n');
            push_block(&mut img, &cells);
            assert(plain@ =~= p0 + sc.plain_row(y as int));
        } else {
            push_char(&mut plain, '\n');
            push_zeros(&mut img, place.render_w as usize * 180);
            assert(plain@ =~= p0 + sc.plain_row(y as int));
        }
        assert(ansi@ =~= "\x1b[?2026h\x1b[H\x1b[2J"@ + sc.rows_text(y + 1)) by {
            assert(sc.rows_text(y + 1) == sc.rows_text(y as int) + sc.row_text(y as int));
        }
        assert(plain@ =~= sc.plain_rows(y + 1)) by {
            assert(sc.plain_rows(y + 1) == sc.plain_rows(y as int) + sc.plain_row(y as int));
        }
        assert(img@ =~= sc.image(y + 1)) by {
            assert(sc.image(y + 1) == sc.image(y as int) + sc.row_image(y as int));
        }
    }
    let flags = [
        if state.mirror { 'M' } else { ' ' },
        if state.invert { 'I' } else { ' ' },
        if geo.transposed { 'T' } else { ' ' },
        if state.bw { 'B' } else { ' ' },
        if state.output_enabled { 'V' } else { ' ' },
    ];
    assert(flags@ =~= hud_flags(state.mirror, state.invert, geo.transposed, state.bw, state.output_enabled));
    push_hud(&mut ansi, term_h, fps, flags, orig_w, orig_h, place.render_w, place.render_h);
    ansi.append("\x1b[?2026l");
    state.last_frame_plain = plain;
    RenderOutput { ansi, image: img, image_w: img_w, image_h: img_h }
}

} // verus!

verus! {

impl Scene {
    /// Channel `c` of image pixel `(ix, iy)`: inside the picture, the colour of
    /// the cell `(ix / 6, iy / 10)` where its glyph leaves pixel
    /// `(ix % 6, iy % 10)` of the cell bare, and a third of it where the glyph
    /// covers that pixel; black on rows outside the picture.
    pub open spec fn image_value(self, iy: int, ix: int, c: int) -> u8 {
        let y = iy / 10;
        if self.in_picture(y) {
            pixel_bytes(self.cell(ix / 6, y - self.pad_y), (iy % 10) as u32, (ix % 6) as u32)[c]
        } else {
            0
        }
    }
}

proof fn lemma_strip(c: Cell, dy: u32, n: int, dx: int, k: int)
    requires
        0 <= dx < n,
        0 <= k < 3,
    ensures
        strip_bytes(c, dy, n).len() == 3 * n,
        strip_bytes(c, dy, n)[3 * dx + k] == pixel_bytes(c, dy, dx as u32)[k],
    decreases n,
{
    lemma_strip_len(c, dy, n);
    lemma_strip_len(c, dy, n - 1);
    if dx < n - 1 {
        lemma_strip(c, dy, n - 1, dx, k);
    }
}

proof fn lemma_strip_len(c: Cell, dy: u32, n: int)
    requires
        n >= 0,
    ensures
        strip_bytes(c, dy, n).len() == 3 * n,
    decreases n,
{
    if n > 0 {
        lemma_strip_len(c, dy, n - 1);
    }
}

proof fn lemma_line_len(cells: Seq<Cell>, dy: u32, n: int)
    requires
        n >= 0,
    ensures
        line_bytes(cells, dy, n).len() == 18 * n,
    decreases n,
{
    if n > 0 {
        lemma_line_len(cells, dy, n - 1);
        lemma_strip_len(cells[n - 1], dy, 6);
    }
}

proof fn lemma_line(cells: Seq<Cell>, dy: u32, n: int, x: int, q: int)
    requires
        0 <= x < n,
        0 <= q < 18,
    ensures
        line_bytes(cells, dy, n)[18 * x + q] == strip_bytes(cells[x], dy, 6)[q],
    decreases n,
{
    lemma_line_len(cells, dy, n - 1);
    lemma_strip_len(cells[n - 1], dy, 6);
    if x < n - 1 {
        lemma_line(cells, dy, n - 1, x, q);
    }
}

proof fn lemma_block_len(cells: Seq<Cell>, n: int)
    requires
        n >= 0,
    ensures
        block_bytes(cells, n).len() == 18 * cells.len() * n,
    decreases n,
{
    if n > 0 {
        lemma_block_len(cells, n - 1);
        lemma_line_len(cells, (n - 1) as u32, cells.len() as int);
        assert(18 * cells.len() * n == 18 * cells.len() * (n - 1) + 18 * cells.len())
            by (nonlinear_arith);
    } else {
        assert(18 * cells.len() * n == 0) by (nonlinear_arith)
            requires
                n == 0,
        ;
    }
}

proof fn lemma_block(cells: Seq<Cell>, n: int, d: int, q: int)
    requires
        0 <= d < n,
        0 <= q < 18 * cells.len(),
    ensures
        block_bytes(cells, n)[18 * cells.len() * d + q] == line_bytes(
            cells,
            d as u32,
            cells.len() as int,
        )[q],
    decreases n,
{
    lemma_block_len(cells, n - 1);
    lemma_line_len(cells, (n - 1) as u32, cells.len() as int);
    if d < n - 1 {
        lemma_block(cells, n - 1, d, q);
        assert(18 * cells.len() * d + q < 18 * cells.len() * (n - 1)) by (nonlinear_arith)
            requires
                d < n - 1,
                q < 18 * cells.len(),
        ;
    } else {
        assert(18 * cells.len() * d == 18 * cells.len() * (n - 1));
    }
}

impl Scene {
    proof fn lemma_row_image_len(self, y: int)
        ensures
            self.row_image(y).len() == 180 * self.render_w,
    {
        if self.in_picture(y) {
            lemma_block_len(self.row_cells(y - self.pad_y), 10);
        }
    }

    proof fn lemma_image_len(self, n: int)
        requires
            n >= 0,
        ensures
            self.image(n).len() == 180 * self.render_w * n,
        decreases n,
    {
        if n > 0 {
            self.lemma_image_len(n - 1);
            self.lemma_row_image_len(n - 1);
            assert(180 * self.render_w * n == 180 * self.render_w * (n - 1) + 180 * self.render_w)
                by (nonlinear_arith);
        } else {
            assert(180 * self.render_w * n == 0) by (nonlinear_arith)
                requires
                    n == 0,
            ;
        }
    }

    proof fn lemma_image_row(self, n: int, y: int, q: int)
        requires
            0 <= y < n,
            0 <= q < 180 * self.render_w,
        ensures
            self.image(n)[180 * self.render_w * y + q] == self.row_image(y)[q],
        decreases n,
    {
        self.lemma_image_len(n - 1);
        self.lemma_row_image_len(n - 1);
        if y < n - 1 {
            self.lemma_image_row(n - 1, y, q);
            assert(180 * self.render_w * y + q < 180 * self.render_w * (n - 1)) by (nonlinear_arith)
                requires
                    y < n - 1,
                    q < 180 * self.render_w,
            ;
        }
    }

    /// The image is `image_w` x `image_h` RGB pixels, row by row, and every
    /// pixel is the one `image_value` describes.
    pub proof fn lemma_image_pixels(self, iy: int, ix: int, c: int)
        requires
            0 <= iy < self.art_rows * 10,
            0 <= ix < self.render_w * 6,
            0 <= c < 3,
        ensures
            self.image(self.art_rows as int).len() == (self.render_w * 6) * (self.art_rows * 10)
                * 3,
            self.image(self.art_rows as int)[(iy * (self.render_w * 6) + ix) * 3 + c]
                == self.image_value(iy, ix, c),
    {
        let rw = self.render_w as int;
        let y = iy / 10;
        let dy = iy % 10;
        let x = ix / 6;
        let dx = ix % 6;
        self.lemma_image_len(self.art_rows as int);
        assert(180 * rw * self.art_rows == (rw * 6) * (self.art_rows * 10) * 3)
            by (nonlinear_arith);
        assert(0 <= y < self.art_rows);
        assert(0 <= x < rw);
        let q = 18 * rw * dy + 18 * x + 3 * dx + c;
        assert((iy * (rw * 6) + ix) * 3 + c == 180 * rw * y + q) by (nonlinear_arith)
            requires
                iy == 10 * y + dy,
                ix == 6 * x + dx,
                q == 18 * rw * dy + 18 * x + 3 * dx + c,
        ;
        assert(0 <= 18 * x + 3 * dx + c < 18 * rw);
        assert(0 <= q < 180 * rw) by (nonlinear_arith)
            requires
                0 <= dy < 10,
                0 <= 18 * x + 3 * dx + c < 18 * rw,
                q == 18 * rw * dy + 18 * x + 3 * dx + c,
        ;
        self.lemma_image_row(self.art_rows as int, y, q);
        if self.in_picture(y) {
            let cells = self.row_cells(y - self.pad_y);
            assert(cells.len() == rw);
            lemma_block(cells, 10, dy, 18 * x + 3 * dx + c);
            lemma_line(cells, dy as u32, rw, x, 3 * dx + c);
            lemma_strip(cells[x], dy as u32, 6, dx, c);
        }
    }
}

} // verus!

verus! {

impl Scene {
    /// A capture shows the characters the terminal shows: character `x` of a
    /// picture row of the plain text is the character that ends the escape
    /// text of that cell.
    pub proof fn lemma_capture_matches_screen(self, y: int, x: int)
        requires
            self.in_picture(y),
            0 <= x < self.render_w,
        ensures
            self.plain_row(y)[x] == cell_text(self.row_cells(y - self.pad_y)[x], self.bw).last(),
    {
    }
}

} // verus!

verus! {

impl Scene {
    /// Two scenes place the picture alike: same rows for the art, same
    /// picture size and padding, same black-and-white setting.
    pub open spec fn same_layout(self, other: Scene) -> bool {
        &&& self.art_rows == other.art_rows
        &&& self.render_w == other.render_w
        &&& self.render_h == other.render_h
        &&& self.pad_x == other.pad_x
        &&& self.pad_y == other.pad_y
    }

    /// Every cell of the picture is the same in both scenes.
    pub open spec fn same_cells(self, other: Scene) -> bool {
        forall|x: int, j: int|
            0 <= x < self.render_w && 0 <= j < self.render_h ==> #[trigger] self.cell(x, j)
                == other.cell(x, j)
    }

    /// The frame shown by `other` is the frame of `self` flipped left to right:
    /// each pixel at column `c`, row `r` of `other`'s drawn frame, and its gray
    /// level, are those at column `frame_w - 1 - c`, row `r` of `self`'s.
    pub open spec fn flipped_frame(self, other: Scene, frame_h: int) -> bool {
        forall|c: int, r: int|
            0 <= c < self.frame_w && 0 <= r < frame_h ==> {
                let p = #[trigger] other.drawn_pixel(c, r);
                let q = self.drawn_pixel(self.frame_w - 1 - c, r);
                &&& other.raw[3 * p] == self.raw[3 * q]
                &&& other.raw[3 * p + 1] == self.raw[3 * q + 1]
                &&& other.raw[3 * p + 2] == self.raw[3 * q + 2]
                &&& other.gray[p] == self.gray[q]
            }
    }

    proof fn lemma_same_row_cells(self, other: Scene, j: int)
        requires
            self.same_layout(other),
            self.same_cells(other),
            0 <= j < self.render_h,
        ensures
            self.row_cells(j) == other.row_cells(j),
    {
        assert forall|x: int| 0 <= x < self.render_w implies self.row_cells(j)[x]
            == other.row_cells(j)[x] by {
            assert(self.cell(x, j) == other.cell(x, j));
        }
        assert(self.row_cells(j) =~= other.row_cells(j));
    }

    /// Scenes with the same layout and the same cells render to the same
    /// image and the same plain text, and, with the same black-and-white
    /// setting, to the same terminal rows.
    pub proof fn lemma_same_cells_same_output(self, other: Scene, n: int)
        requires
            self.same_layout(other),
            self.same_cells(other),
        ensures
            self.image(n) == other.image(n),
            self.plain_rows(n) == other.plain_rows(n),
            self.bw == other.bw ==> self.rows_text(n) == other.rows_text(n),
        decreases n,
    {
        if n > 0 {
            self.lemma_same_cells_same_output(other, n - 1);
            let y = n - 1;
            if self.in_picture(y) {
                self.lemma_same_row_cells(other, y - self.pad_y);
                assert(self.plain_row(y) =~= other.plain_row(y)) by {
                    let j = y - self.pad_y;
                    assert forall|x: int| 0 <= x < self.render_w implies self.cell(x, j).ch
                        == other.cell(x, j).ch by {
                        assert(self.cell(x, j) == other.cell(x, j));
                    }
                }
            }
        }
    }

    /// Black and white changes only the colour escapes: the cells, the image
    /// and the plain text are those of the colour rendering, and each cell is
    /// printed white.
    pub proof fn lemma_black_and_white(self, n: int, c: Cell)
        ensures
            ({
                let white = Scene { bw: true, ..self };
                &&& white.image(n) == self.image(n)
                &&& white.plain_rows(n) == self.plain_rows(n)
                &&& forall|j: int| #[trigger] white.row_cells(j) == self.row_cells(j)
                &&& cell_text(c, true) == "\x1b[38;2;255;255;255m"@.push(c.ch)
            }),
    {
        let white = Scene { bw: true, ..self };
        assert forall|j: int| #[trigger] white.row_cells(j) == self.row_cells(j) by {
            assert(white.row_cells(j) =~= self.row_cells(j));
        }
        assert(white.same_cells(self));
        white.lemma_same_cells_same_output(self, n);
    }

    /// Mirroring a frame that is flipped left to right gives back the picture
    /// of the frame: same cells, image, plain text and terminal rows. This
    /// holds for transposed frames too.
    pub proof fn lemma_mirror_undoes_flip(self, other: Scene, frame_h: int, n: int)
        requires
            self.same_layout(other),
            self.bw == other.bw,
            other.mirror == !self.mirror,
            other.transposed == self.transposed,
            other.orig_w == self.orig_w,
            other.frame_w == self.frame_w,
            other.lut == self.lut,
            other.xs == self.xs,
            other.ys == self.ys,
            self.xs.len() == self.render_w,
            self.ys.len() == self.render_h,
            forall|x: int| 0 <= x < self.render_w ==> #[trigger] self.xs[x] < self.frame_w,
            forall|j: int| 0 <= j < self.render_h ==> #[trigger] self.ys[j] < frame_h,
            self.flipped_frame(other, frame_h),
        ensures
            self.same_cells(other),
            self.image(n) == other.image(n),
            self.plain_rows(n) == other.plain_rows(n),
            self.rows_text(n) == other.rows_text(n),
    {
        assert forall|x: int, j: int|
            0 <= x < self.render_w && 0 <= j < self.render_h implies #[trigger] self.cell(x, j)
            == other.cell(x, j) by {
            let r = self.ys[j] as int;
            let c = other.drawn_column(x);
            assert(self.xs[x] < self.frame_w);
            assert(self.ys[j] < frame_h);
            assert(0 <= c < self.frame_w);
            assert(self.drawn_column(x) == self.frame_w - 1 - c);
            let p = other.drawn_pixel(c, r);
            assert(other.pixel_number(x, j) == p);
            assert(self.pixel_number(x, j) == self.drawn_pixel(self.frame_w - 1 - c, r));
        }
        self.lemma_same_cells_same_output(other, n);
    }
}

} // verus!

verus! {

/// Pixel `j` of row `i` of a frame `w` pixels wide, counted row by row.
pub open spec fn pixel_at(w: int, i: int, j: int) -> int {
    i * w + j
}

/// Pixel `q` of `raw2` and its gray level in `gray2` are pixel `p` of `raw`
/// and its gray level in `gray`.
pub open spec fn same_pixel(
    raw2: Seq<u8>,
    gray2: Seq<u8>,
    q: int,
    raw: Seq<u8>,
    gray: Seq<u8>,
    p: int,
) -> bool {
    &&& raw2[3 * q] == raw[3 * p]
    &&& raw2[3 * q + 1] == raw[3 * p + 1]
    &&& raw2[3 * q + 2] == raw[3 * p + 2]
    &&& gray2[q] == gray[p]
}

/// `raw2` and `gray2` show the picture of `raw` and `gray` flipped left to
/// right as it is drawn: each row reversed for a frame drawn as it is, the
/// order of the rows reversed for a frame drawn transposed.
pub open spec fn flipped_input(
    raw: Seq<u8>,
    gray: Seq<u8>,
    raw2: Seq<u8>,
    gray2: Seq<u8>,
    orig_w: u32,
    orig_h: u32,
    transposed: bool,
) -> bool {
    forall|i: int, j: int|
        0 <= i < orig_h && 0 <= j < orig_w ==> same_pixel(
            raw2,
            gray2,
            #[trigger] pixel_at(orig_w as int, i, j),
            raw,
            gray,
            if transposed {
                pixel_at(orig_w as int, orig_h - 1 - i, j)
            } else {
                pixel_at(orig_w as int, i, orig_w - 1 - j)
            },
        )
}

/// The placement samples only columns and rows of the drawn frame: what a
/// placement fitted to the frame provides.
pub open spec fn placement_in_frame(place: Placement, frame_w: u32, frame_h: u32) -> bool {
    &&& place.src_xs@.len() == place.render_w
    &&& place.src_ys@.len() == place.render_h
    &&& forall|x: int| 0 <= x < place.render_w ==> #[trigger] place.src_xs@[x] < frame_w
    &&& forall|j: int| 0 <= j < place.render_h ==> #[trigger] place.src_ys@[j] < frame_h
}

/// Two renderings of the same frame that differ only in black and white have
/// the same image and the same plain text: black and white changes only the
/// colour escapes of the cells (each cell printed white, as `cell_text`
/// states) and the `B` flag of the status bar.
pub proof fn lemma_render_black_and_white(
    raw: Seq<u8>,
    gray: Seq<u8>,
    orig_w: u32,
    orig_h: u32,
    state: ViewState,
    place: Placement,
    term_h: u32,
)
    ensures
        ({
            let colour = scene_of(raw, gray, orig_w, orig_h, ViewState { bw: false, ..state }, place, term_h);
            let white = scene_of(raw, gray, orig_w, orig_h, ViewState { bw: true, ..state }, place, term_h);
            let n = art_rows_for(term_h) as int;
            &&& white.image(n) == colour.image(n)
            &&& white.plain_rows(n) == colour.plain_rows(n)
            &&& forall|j: int| #[trigger] white.row_cells(j) == colour.row_cells(j)
        }),
{
    let colour = scene_of(raw, gray, orig_w, orig_h, ViewState { bw: false, ..state }, place, term_h);
    let white = scene_of(raw, gray, orig_w, orig_h, ViewState { bw: true, ..state }, place, term_h);
    assert(white == Scene { bw: true, ..colour });
    colour.lemma_black_and_white(art_rows_for(term_h) as int, Cell { r: 0, g: 0, b: 0, ch: ' ' });
}

/// Rendering with the mirror switched a frame flipped left to right, with its
/// gray levels flipped alike and the same placement, gives the same image,
/// plain text and terminal rows as rendering the frame: the mirror flips the
/// drawn picture, transposed or not.
pub proof fn lemma_render_mirror(
    raw: Seq<u8>,
    gray: Seq<u8>,
    raw2: Seq<u8>,
    gray2: Seq<u8>,
    orig_w: u32,
    orig_h: u32,
    state: ViewState,
    place: Placement,
    term_h: u32,
)
    requires
        placement_in_frame(
            place,
            if state.transpose || orig_w < orig_h { orig_h } else { orig_w },
            if state.transpose || orig_w < orig_h { orig_w } else { orig_h },
        ),
        flipped_input(raw, gray, raw2, gray2, orig_w, orig_h, state.transpose || orig_w < orig_h),
    ensures
        ({
            let plain = scene_of(raw, gray, orig_w, orig_h, state, place, term_h);
            let flipped = scene_of(
                raw2,
                gray2,
                orig_w,
                orig_h,
                ViewState { mirror: !state.mirror, ..state },
                place,
                term_h,
            );
            let n = art_rows_for(term_h) as int;
            &&& flipped.image(n) == plain.image(n)
            &&& flipped.plain_rows(n) == plain.plain_rows(n)
            &&& flipped.rows_text(n) == plain.rows_text(n)
        }),
{
    let s1 = scene_of(raw, gray, orig_w, orig_h, state, place, term_h);
    let s2 = scene_of(
        raw2,
        gray2,
        orig_w,
        orig_h,
        ViewState { mirror: !state.mirror, ..state },
        place,
        term_h,
    );
    let transposed = state.transpose || orig_w < orig_h;
    let frame_h: int = if transposed { orig_w as int } else { orig_h as int };
    assert forall|x: int| 0 <= x < s1.render_w implies #[trigger] s1.xs[x] < s1.frame_w by {
        assert(place.src_xs@[x] < s1.frame_w);
    }
    assert forall|j: int| 0 <= j < s1.render_h implies #[trigger] s1.ys[j] < frame_h by {
        assert(place.src_ys@[j] < frame_h);
    }
    assert forall|c: int, r: int| 0 <= c < s1.frame_w && 0 <= r < frame_h implies {
        let p = #[trigger] s2.drawn_pixel(c, r);
        let q = s1.drawn_pixel(s1.frame_w - 1 - c, r);
        &&& s2.raw[3 * p] == s1.raw[3 * q]
        &&& s2.raw[3 * p + 1] == s1.raw[3 * q + 1]
        &&& s2.raw[3 * p + 2] == s1.raw[3 * q + 2]
        &&& s2.gray[p] == s1.gray[q]
    } by {
        let w = orig_w as int;
        if transposed {
            assert(s2.drawn_pixel(c, r) == pixel_at(w, c, r));
            assert(s1.drawn_pixel(s1.frame_w - 1 - c, r) == pixel_at(w, orig_h - 1 - c, r));
        } else {
            assert(s2.drawn_pixel(c, r) == pixel_at(w, r, c));
            assert(s1.drawn_pixel(s1.frame_w - 1 - c, r) == pixel_at(w, r, orig_w - 1 - c));
        }
    }
    assert(s1.flipped_frame(s2, frame_h));
    s1.lemma_mirror_undoes_flip(s2, frame_h, art_rows_for(term_h) as int);
}

} // verus!

verus! {

/// What follows the colour escape's fixed start: red, `;`, green, `;`,
/// blue, `m`, and the character.
spec fn colour_fields(c: Cell) -> Seq<char> {
    decimal(c.r as nat).push(';') + (decimal(c.g as nat).push(';') + (decimal(c.b as nat).push(
        'm',
    ) + seq![c.ch]))
}

proof fn lemma_colour_text_shape(c: Cell)
    ensures
        cell_text(c, false) == "\x1b[38;2;"@ + colour_fields(c),
{
    reveal_strlit(";");
    reveal_strlit("m");
    assert(cell_text(c, false) =~= "\x1b[38;2;"@ + colour_fields(c));
}

proof fn lemma_colour_fields_unique(c1: Cell, c2: Cell)
    requires
        colour_fields(c1) == colour_fields(c2),
    ensures
        c1 == c2,
{
    lemma_decimal_reads_back(c1.r as nat);
    lemma_decimal_reads_back(c2.r as nat);
    lemma_decimal_reads_back(c1.g as nat);
    lemma_decimal_reads_back(c2.g as nat);
    lemma_decimal_reads_back(c1.b as nat);
    lemma_decimal_reads_back(c2.b as nat);
    assert(!is_digit(';'));
    assert(!is_digit('m'));
    lemma_digits_split_unique(
        decimal(c1.r as nat),
        decimal(c2.r as nat),
        ';',
        decimal(c1.g as nat).push(';') + (decimal(c1.b as nat).push('m') + seq![c1.ch]),
        decimal(c2.g as nat).push(';') + (decimal(c2.b as nat).push('m') + seq![c2.ch]),
    );
    lemma_digits_split_unique(
        decimal(c1.g as nat),
        decimal(c2.g as nat),
        ';',
        decimal(c1.b as nat).push('m') + seq![c1.ch],
        decimal(c2.b as nat).push('m') + seq![c2.ch],
    );
    lemma_digits_split_unique(decimal(c1.b as nat), decimal(c2.b as nat), 'm', seq![c1.ch], seq![c2.ch]);
    lemma_decimal_injective(c1.r as nat, c2.r as nat);
    lemma_decimal_injective(c1.g as nat, c2.g as nat);
    lemma_decimal_injective(c1.b as nat, c2.b as nat);
    assert(seq![c1.ch][0] == seq![c2.ch][0]);
}

/// In colour mode the terminal text of a cell gives back the cell: two cells
/// with the same escape text have the same colour and character. In black and
/// white the text depends on the character alone.
pub proof fn lemma_colour_text_gives_back_cell(c1: Cell, c2: Cell)
    ensures
        cell_text(c1, false) == cell_text(c2, false) ==> c1 == c2,
        cell_text(c1, true) == cell_text(c2, true) <==> c1.ch == c2.ch,
        cell_text(c1, false).last() == c1.ch,
{
    let p = "\x1b[38;2;"@;
    lemma_colour_text_shape(c1);
    lemma_colour_text_shape(c2);
    if cell_text(c1, false) == cell_text(c2, false) {
        assert(colour_fields(c1) =~= (p + colour_fields(c1)).skip(p.len() as int));
        assert(colour_fields(c2) =~= (p + colour_fields(c2)).skip(p.len() as int));
        lemma_colour_fields_unique(c1, c2);
    }
    if cell_text(c1, true) == cell_text(c2, true) {
        assert(cell_text(c1, true).last() == c1.ch);
        assert(cell_text(c2, true).last() == c2.ch);
    }
    if c1.ch == c2.ch {
        assert(cell_text(c1, true) =~= cell_text(c2, true));
    }
}

} // verus!
