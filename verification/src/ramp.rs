//! The glyph ramp and the quantisation of brightness onto it.

use vstd::prelude::*;

verus! {

/// The glyphs from densest to sparsest: a dark pixel is drawn with the first
/// one, a bright pixel with the last one, which is a blank.
pub const ASCII_CHARS: &'static str = "@#8&$%*+;:,. ";

/// Number of glyphs in [`ASCII_CHARS`].
pub const RAMP_LEN: usize = 13;

/// The ramp as a sequence of characters.
pub open spec fn ramp() -> Seq<char> {
    ASCII_CHARS@
}

/// Position on the ramp of an 8-bit brightness: `luma / 255` scaled to
/// `0 ..= RAMP_LEN - 1` and rounded to the nearest integer, which is
/// `luma * (RAMP_LEN - 1) / 255 + 1 / 2` rounded down.
pub open spec fn ramp_index(luma: u8) -> int {
    (2 * (RAMP_LEN - 1) * luma + 255) / 510
}

/// The glyph that stands for an 8-bit brightness.
pub open spec fn glyph_of(luma: u8) -> char {
    ramp()[ramp_index(luma)]
}

/// What the ramp holds, glyph by glyph.
pub proof fn lemma_ramp_contents()
    ensures
        ramp() == seq!['@', '#', '8', '&', '$', '%', '*', '+', ';', ':', ',', '.', ' '],
        ramp().len() == RAMP_LEN,
{
    reveal_strlit("@#8&$%*+;:,. ");
    assert(ramp() =~= seq!['@', '#', '8', '&', '$', '%', '*', '+', ';', ':', ',', '.', ' ']);
}

proof fn lemma_ramp_index_value(luma: u8)
    ensures
        ramp_index(luma) == (24 * luma + 255) / 510,
{
    assert(2 * (RAMP_LEN - 1) * luma == 24 * luma) by (nonlinear_arith)
        requires
            RAMP_LEN == 13,
    ;
}

/// Every brightness has a place on the ramp: black takes the first glyph, the
/// densest one, and white takes the last one, the blank.
pub proof fn lemma_ramp_index_in_range(luma: u8)
    ensures
        0 <= ramp_index(luma) < ramp().len(),
        ramp_index(0) == 0,
        ramp_index(255) == ramp().len() - 1,
        glyph_of(0) == '@',
        glyph_of(255) == ' ',
{
    lemma_ramp_contents();
    lemma_ramp_index_value(luma);
    lemma_ramp_index_value(0);
    lemma_ramp_index_value(255);
}

/// The position chosen is the integer nearest to `luma / 255 * (RAMP_LEN - 1)`:
/// the two differ by less than one half, and no brightness falls exactly
/// between two positions.
pub proof fn lemma_ramp_index_nearest(luma: u8)
    ensures
        2 * (255 * ramp_index(luma) - (RAMP_LEN - 1) * luma) < 255,
        2 * ((RAMP_LEN - 1) * luma - 255 * ramp_index(luma)) < 255,
{
    let index = ramp_index(luma);
    lemma_ramp_index_value(luma);
    assert((RAMP_LEN - 1) * luma == 12 * luma) by (nonlinear_arith)
        requires
            RAMP_LEN == 13,
    ;
    assert(510 * index <= 24 * luma + 255 < 510 * index + 510);
    assert(24 * luma + 255 != 510 * index) by {
        assert((24 * luma + 255) % 2 == 1);
        assert((510 * index) % 2 == 0);
    }
}

/// A brighter pixel never gets a denser glyph.
pub proof fn lemma_ramp_index_monotone(darker: u8, brighter: u8)
    requires
        darker <= brighter,
    ensures
        ramp_index(darker) <= ramp_index(brighter),
{
    lemma_ramp_index_value(darker);
    lemma_ramp_index_value(brighter);
}

/// Quantises a brightness to its position on the ramp.
pub fn glyph_index(luma: u8) -> (index: usize)
    ensures
        index == ramp_index(luma),
        index < RAMP_LEN,
{
    let steps: usize = 2 * (RAMP_LEN - 1);
    proof {
        lemma_ramp_index_value(luma);
        assert(steps * luma == 24 * luma) by (nonlinear_arith)
            requires
                steps == 24,
        ;
    }
    (steps * (luma as usize) + 255) / 510
}

/// The glyph for a brightness.
pub fn glyph(luma: u8) -> (ch: char)
    ensures
        ch == glyph_of(luma),
{
    let index = glyph_index(luma);
    proof {
        lemma_ramp_contents();
    }
    ASCII_CHARS.get_char(index)
}

} // verus!
