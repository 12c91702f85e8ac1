//! The emitter: from a grid of glyphs and the image to coloured terminal
//! output.

use crate::ansi::{
    foreground_code, foreground_sequence, reset_code, reset_sequence, rgb_sequence,
};
use crate::bitmap::{lemma_offset_in_data, Bitmap, Image};
use vstd::prelude::*;
use vstd::string::StringExecFns;

verus! {

/// The coloured text of `art` over `bitmap`, before the final reset. The
/// characters of `art`, line feeds included, are numbered from 0. Number `i`
/// takes the colour of the pixel at column `i % width` of row `i / width`,
/// where `width` is that of the image: the sequence that sets this colour is
/// written, then the character. A character for which the image has no such
/// pixel is left out, and nothing is written for it. `colored[i]` tells
/// whether colours were on when number `i` was written.
pub open spec fn colored_text(art: Seq<char>, bitmap: Bitmap, colored: Seq<bool>) -> Seq<char>
    decreases art.len(),
{
    if art.len() == 0 {
        Seq::empty()
    } else {
        let i = art.len() - 1;
        let x = i % (bitmap.width as int);
        let y = i / (bitmap.width as int);
        let before = colored_text(art.drop_last(), bitmap, colored);
        if bitmap.in_bounds(x, y) {
            before + foreground_sequence(bitmap.rgb(x, y), colored[i]) + seq![art[i]]
        } else {
            before
        }
    }
}

/// Whether `out` is terminal output for `art` over `bitmap`: the coloured
/// text, whatever the state of the colour switch was at each character, and
/// then one reset of the colours.
pub open spec fn is_colored_ascii(out: Seq<char>, art: Seq<char>, bitmap: Bitmap) -> bool {
    exists|colored: Seq<bool>|
        colored.len() == art.len() && out == #[trigger] colored_text(art, bitmap, colored)
            + reset_sequence()
}

/// Number `i` has a pixel exactly when it is below `width * height`, and
/// then that pixel is number `i` of the image in row-major order.
pub proof fn lemma_cell_of_index(i: int, width: int, height: int)
    requires
        0 <= i,
        0 < width,
        0 < height,
    ensures
        0 <= i % width < width,
        0 <= i / width,
        i / width < height <==> i < width * height,
        (i / width) * width + i % width == i,
{
    assert(0 <= i % width < width && 0 <= i / width && (i / width) * width + i % width == i
        && (i / width < height <==> i < width * height)) by (nonlinear_arith)
        requires
            0 <= i,
            0 < width,
            0 < height,
    ;
}

/// The coloured text of a prefix of `art` looks at no switch beyond the
/// prefix.
pub proof fn lemma_colored_text_switches(
    art: Seq<char>,
    bitmap: Bitmap,
    colored: Seq<bool>,
    other: Seq<bool>,
)
    requires
        forall|i: int| 0 <= i < art.len() ==> colored[i] == other[i],
    ensures
        colored_text(art, bitmap, colored) == colored_text(art, bitmap, other),
    decreases art.len(),
{
    if art.len() > 0 {
        lemma_colored_text_switches(art.drop_last(), bitmap, colored, other);
    }
}

/// The characters from number `width * height` on are the ones without a
/// pixel, so the text stops there: a longer `art` gives what its first
/// `width * height` characters give.
pub proof fn lemma_colored_text_clipped(art: Seq<char>, bitmap: Bitmap, colored: Seq<bool>)
    requires
        bitmap.wf(),
        art.len() >= bitmap.width * bitmap.height,
    ensures
        colored_text(art, bitmap, colored) == colored_text(
            art.take((bitmap.width * bitmap.height) as int),
            bitmap,
            colored,
        ),
    decreases art.len(),
{
    let area = bitmap.width * bitmap.height;
    if art.len() == area {
        assert(art.take(area as int) =~= art);
    } else {
        let last = art.len() - 1;
        lemma_colored_text_clipped(art.drop_last(), bitmap, colored);
        assert(art.drop_last().take(area as int) =~= art.take(area as int));
        assert(!bitmap.in_bounds(last % (bitmap.width as int), last / (bitmap.width as int))) by {
            if !bitmap.is_empty() {
                lemma_cell_of_index(last, bitmap.width as int, bitmap.height as int);
                assert(area == (bitmap.width as int) * (bitmap.height as int))
                    by (nonlinear_arith)
                    requires
                        area == bitmap.width * bitmap.height,
                ;
            }
        }
    }
}

/// An image without pixels colours nothing: every character is left out.
pub proof fn lemma_colored_text_of_empty_image(
    art: Seq<char>,
    bitmap: Bitmap,
    colored: Seq<bool>,
)
    requires
        bitmap.is_empty(),
    ensures
        colored_text(art, bitmap, colored) == Seq::<char>::empty(),
    decreases art.len(),
{
    if art.len() > 0 {
        lemma_colored_text_of_empty_image(art.drop_last(), bitmap, colored);
    }
}

/// Colours `ascii_art` with the pixels of `image` for a terminal: before
/// each character the sequence that sets the foreground to the colour of
/// its pixel, and at the end one reset. See [`colored_text`] for which
/// pixel a character takes and which characters are left out. Over an image
/// without pixels all are left out, and the reset alone is written.
pub fn colored_ascii(ascii_art: &str, image: &Image) -> (out: String)
    ensures
        is_colored_ascii(out@, ascii_art@, image@),
{
    proof {
        use_type_invariant(image);
    }
    let width = image.width() as usize;
    let height = image.height() as usize;
    let mut out = String::new();
    if width == 0 || height == 0 {
        let reset = reset_code();
        out.append(reset.as_str());
        proof {
            let colored = Seq::new(ascii_art@.len(), |i: int| false);
            lemma_colored_text_of_empty_image(ascii_art@, image@, colored);
            assert(out@ =~= colored_text(ascii_art@, image@, colored) + reset_sequence());
        }
        return out;
    }
    let ghost mut colored: Seq<bool> = Seq::empty();
    // The number of the character at hand, as long as it has a pixel. The
    // first one without a pixel holds it fast: none after it has one either.
    let mut index: usize = 0;
    for ch in it: ascii_art.chars()
        invariant
            it.seq() == ascii_art@,
            width == image@.width,
            height == image@.height,
            width > 0,
            height > 0,
            image@.wf(),
            index == if it.index() <= width * height {
                it.index() as int
            } else {
                width * height
            },
            colored.len() == it.index(),
            out@ == colored_text(ascii_art@.take(it.index() as int), image@, colored),
    {
        let x = index % width;
        let y = index / width;
        let ghost i = it.index() as int;
        let ghost before = colored;
        proof {
            lemma_cell_of_index(index as int, width as int, height as int);
            lemma_cell_of_index(i, width as int, height as int);
            assert(ascii_art@.take(i + 1).drop_last() =~= ascii_art@.take(i));
        }
        if y < height {
            proof {
                lemma_offset_in_data(image@, x as int, y as int);
            }
            let color = image.rgb(x as u32, y as u32);
            let code = foreground_code(color);
            out.append(code.as_str());
            out.push(ch);
            proof {
                colored = colored.push(code@ == rgb_sequence(color));
            }
            index += 1;
        } else {
            proof {
                colored = colored.push(false);
            }
        }
        proof {
            lemma_colored_text_switches(ascii_art@.take(i), image@, before, colored);
        }
    }
    let reset = reset_code();
    out.append(reset.as_str());
    proof {
        assert(ascii_art@.take(ascii_art@.len() as int) =~= ascii_art@);
    }
    out
}

} // verus!
