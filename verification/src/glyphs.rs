//! The brightness ramp of the character art and the pixel bitmaps of its
//! characters.
use vstd::prelude::*;
use crate::text::chars_of;

verus! {

/// Characters from darkest to brightest.
pub const GSCALE: &'static str = "   .:-=+*#%@";

/// Width in pixels of one character cell in the rendered image.
pub const CHAR_PX_W: u32 = 6;

/// Height in pixels of one character cell in the rendered image.
pub const CHAR_PX_H: u32 = 10;

/// The ramp `GSCALE` as a sequence of characters.
pub open spec fn ramp() -> Seq<char> {
    seq![' ', ' ', ' ', '.', ':', '-', '=', '+', '*', '#', '%', '@']
}

/// The ramp in the order that a table for `invert` uses.
pub open spec fn ramp_for(invert: bool) -> Seq<char> {
    if invert {
        ramp().reverse()
    } else {
        ramp()
    }
}

/// The position on the ramp for gray level `i`: `i * 11 / 255` rounded to the
/// nearest integer (no level lies halfway between two positions).
pub open spec fn shade_index(i: int) -> int {
    (22 * i + 255) / 510
}

/// The table that maps each gray level to its character.
pub open spec fn lut_for(invert: bool) -> Seq<char> {
    Seq::new(256, |i: int| ramp_for(invert)[shade_index(i)])
}

/// The bitmap of a character: bit `dy * 6 + dx` is set where the glyph covers
/// pixel `(dx, dy)` of its cell.
pub open spec fn glyph(ch: char) -> u64 {
    match ch {
        ' ' => 0,
        '.' => 0x00030000,
        ':' => 0x0003000300,
        '-' => 0x0007000000,
        '=' => 0x000700000700,
        '+' => 0x020702000000,
        '*' => 0x063F1F3F0600,
        '#' => 0x0C3F3F1F3F3F0C,
        '%' => 0x2310180C060231,
        '@' => 0x1F3F3B3B3F1F00,
        _ => 0,
    }
}

/// Whether the glyph of `ch` covers pixel `(dx, dy)` of its cell.
pub open spec fn glyph_bit(ch: char, dy: u32, dx: u32) -> bool {
    (glyph(ch) >> ((dy * 6 + dx) as u32)) & 1u64 == 1u64
}

/// The bitmap of a character of the ramp; other characters are blank.
pub fn char_bitmap(ch: char) -> (bits: u64)
    ensures
        bits == glyph(ch),
{
    match ch {
        ' ' => 0,
        '.' => 0x00030000,
        ':' => 0x0003000300,
        '-' => 0x0007000000,
        '=' => 0x000700000700,
        '+' => 0x020702000000,
        '*' => 0x063F1F3F0600,
        '#' => 0x0C3F3F1F3F3F0C,
        '%' => 0x2310180C060231,
        '@' => 0x1F3F3B3B3F1F00,
        _ => 0,
    }
}

/// Every glyph lies inside its 6 x 10 cell: no bit at or above 60 is set.
pub proof fn lemma_glyph_fits_cell(ch: char)
    ensures
        glyph(ch) >> 60u64 == 0,
{
    let g = glyph(ch);
    assert(g == 0 || g == 0x00030000 || g == 0x0003000300 || g == 0x0007000000 || g
        == 0x000700000700 || g == 0x020702000000 || g == 0x063F1F3F0600 || g
        == 0x0C3F3F1F3F3F0C || g == 0x2310180C060231 || g == 0x1F3F3B3B3F1F00);
    assert(g == 0 || g == 0x00030000 || g == 0x0003000300 || g == 0x0007000000 || g
        == 0x000700000700 || g == 0x020702000000 || g == 0x063F1F3F0600 || g
        == 0x0C3F3F1F3F3F0C || g == 0x2310180C060231 || g == 0x1F3F3B3B3F1F00 ==> g >> 60u64
        == 0) by (bit_vector);
}

/// Every gray level has a position on the ramp.
pub proof fn lemma_shade_index_bounds(i: int)
    requires
        0 <= i < 256,
    ensures
        0 <= shade_index(i) <= 11,
        i == 0 ==> shade_index(i) == 0,
        i == 255 ==> shade_index(i) == 11,
{
}

/// Brighter levels never map lower on the ramp.
pub proof fn lemma_shade_index_monotone(i: int, j: int)
    requires
        0 <= i <= j < 256,
    ensures
        shade_index(i) <= shade_index(j),
{
    vstd::arithmetic::div_mod::lemma_div_is_ordered(22 * i + 255, 22 * j + 255, 510);
}

/// Level `255 - i` lies as far from the bright end as level `i` lies from the
/// dark end.
pub proof fn lemma_shade_index_symmetric(i: int)
    requires
        0 <= i < 256,
    ensures
        shade_index(255 - i) == 11 - shade_index(i),
{
    let a = 22 * i + 255;
    let q = a / 510;
    let r = a % 510;
    vstd::arithmetic::div_mod::lemma_fundamental_div_mod(a, 510);
    assert(r != 0) by {
        // a is odd, so it is no multiple of 510
        assert(a % 2 == 1);
        if r == 0 {
            assert(a == 510 * q);
            assert((510 * q) % 2 == 0) by {
                vstd::arithmetic::div_mod::lemma_mod_multiples_basic(255 * q, 2);
            }
        }
    }
    let b = 22 * (255 - i) + 255;
    assert(b == (11 - q) * 510 + (510 - r));
    vstd::arithmetic::div_mod::lemma_fundamental_div_mod_converse(b, 510, 11 - q, 510 - r);
}

/// Builds the table that maps each gray level to its character: level `i`
/// takes the character at `i * 11 / 255`, rounded, on the ramp, which is
/// reversed when `invert` is set.
pub fn build_lut(invert: bool) -> (lut: [char; 256])
    ensures
        lut@ == lut_for(invert),
{
    proof {
        reveal_strlit("   .:-=+*#%@");
    }
    let forward = chars_of(GSCALE);
    assert(forward@ =~= ramp());
    let chars: Vec<char> = if invert {
        let mut rev: Vec<char> = Vec::new();
        let mut k: usize = forward.len();
        while k > 0
            invariant
                k <= forward.len(),
                forward@ == ramp(),
                rev@.len() == forward.len() - k,
                forall|m: int| 0 <= m < rev@.len() ==> rev@[m] == forward@[forward@.len() - 1 - m],
            decreases k,
        {
            k = k - 1;
            rev.push(forward[k]);
        }
        assert(rev@ =~= ramp().reverse());
        rev
    } else {
        forward
    };
    assert(chars@ == ramp_for(invert));
    let n: usize = chars.len() - 1;
    let mut lut = [' '; 256];
    for i in 0..256usize
        invariant
            n == 11,
            chars@ == ramp_for(invert),
            lut@.len() == 256,
            forall|m: int| 0 <= m < i ==> lut@[m] == ramp_for(invert)[shade_index(m)],
    {
        let mut idx: usize = (2 * i * n + 255) / 510;
        proof {
            lemma_shade_index_bounds(i as int);
        }
        if idx > n {
            idx = n;
        }
        lut[i] = chars[idx];
    }
    assert(lut@ =~= lut_for(invert));
    lut
}

/// The table for inverted brightness is the plain table read backwards:
/// inverting maps level `i` to the character that level `255 - i` had.
pub proof fn lemma_inverted_table_mirrors(i: int)
    requires
        0 <= i < 256,
    ensures
        lut_for(true)[i] == lut_for(false)[255 - i],
{
    lemma_shade_index_symmetric(i);
    lemma_shade_index_bounds(i);
    assert(ramp().len() == 12);
}

/// Brighter levels never map to a character lower on the ramp.
pub proof fn lemma_table_follows_ramp(invert: bool, i: int, j: int)
    requires
        0 <= i <= j < 256,
    ensures
        exists|a: int, b: int|
            0 <= a <= b < 12 && lut_for(invert)[i] == ramp_for(invert)[a] && lut_for(invert)[j]
                == ramp_for(invert)[b],
{
    lemma_shade_index_monotone(i, j);
    lemma_shade_index_bounds(i);
    lemma_shade_index_bounds(j);
    assert(lut_for(invert)[i] == ramp_for(invert)[shade_index(i)]);
    assert(lut_for(invert)[j] == ramp_for(invert)[shade_index(j)]);
}

} // verus!

verus! {

/// The font: the bitmap of each character of the ramp, bit `dy * 6 + dx` set
/// where the glyph covers pixel `(dx, dy)` of its cell.
pub proof fn lemma_font_bitmaps()
    ensures
        glyph(' ') == 0,
        glyph('.') == 0x00030000,
        glyph(':') == 0x0003000300,
        glyph('-') == 0x0007000000,
        glyph('=') == 0x000700000700,
        glyph('+') == 0x020702000000,
        glyph('*') == 0x063F1F3F0600,
        glyph('#') == 0x0C3F3F1F3F3F0C,
        glyph('%') == 0x2310180C060231,
        glyph('@') == 0x1F3F3B3B3F1F00,
{
}

/// Only the blank and characters off the ramp are drawn empty; the other
/// characters of the ramp have pairwise different glyphs.
pub proof fn lemma_glyphs_distinguish_ramp(ch: char, i: int, j: int)
    requires
        0 <= i < 12,
        0 <= j < 12,
    ensures
        glyph(ch) == 0 <==> (ch == ' ' || !ramp().contains(ch)),
        ramp()[i] != ramp()[j] ==> glyph(ramp()[i]) != glyph(ramp()[j]),
{
    let r = ramp();
    if ch != ' ' && !r.contains(ch) {
        if ch == '.' {
            assert(r[3] == ch);
        } else if ch == ':' {
            assert(r[4] == ch);
        } else if ch == '-' {
            assert(r[5] == ch);
        } else if ch == '=' {
            assert(r[6] == ch);
        } else if ch == '+' {
            assert(r[7] == ch);
        } else if ch == '*' {
            assert(r[8] == ch);
        } else if ch == '#' {
            assert(r[9] == ch);
        } else if ch == '%' {
            assert(r[10] == ch);
        } else if ch == '@' {
            assert(r[11] == ch);
        }
    }
    if r.contains(ch) && ch != ' ' {
        let k = choose|k: int| 0 <= k < r.len() && r[k] == ch;
        assert(glyph(r[k]) != 0);
    }
}

} // verus!
