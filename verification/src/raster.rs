//! The rasterizer: from an image to a grid of glyphs.

use crate::bitmap::{Bitmap, Image};
use crate::ramp::{glyph, glyph_of, lemma_ramp_contents, lemma_ramp_index_in_range};
use crate::sampling::{luma8, resize_exact_nearest, resized_nearest, to_luma8};
use vstd::prelude::*;

verus! {

/// A character cell is about twice as tall as it is wide, so a grid keeps
/// the proportions of the image when it has `CELL_ASPECT_NUM / CELL_ASPECT_DEN`
/// (that is 0.55) times the rows that square cells would take.
pub const CELL_ASPECT_NUM: u128 = 11;

pub const CELL_ASPECT_DEN: u128 = 20;

/// Why an image could not be rasterized.
#[derive(Clone, Copy, Debug, PartialEq, Eq)]
pub enum RasterError {
    /// A grid without columns was asked for.
    ZeroWidth,
    /// The grid has more rows than 32 bits can count, or the buffers needed
    /// to sample it would not fit in memory that this machine can address.
    /// An image with rows but without columns has no proportions to keep:
    /// the rows of its grid would be without bound.
    TooLarge,
}

/// Number of rows of a grid of `target_width` columns for an image of
/// `width` by `height` pixels: `target_width * height / width * 0.55`, rounded
/// to the nearest integer, halves upwards. An image without rows has a grid
/// without rows, whatever its width.
pub open spec fn grid_rows(target_width: nat, width: nat, height: nat) -> nat {
    if height == 0 {
        0
    } else {
        ((2 * CELL_ASPECT_NUM * target_width * height + CELL_ASPECT_DEN * width) / (2
            * CELL_ASPECT_DEN * width)) as nat
    }
}

/// One row of glyphs: the glyph of each of the `width` brightness values of
/// row `y`.
pub open spec fn glyph_row(luma: Seq<u8>, width: nat, y: int) -> Seq<char> {
    Seq::new(width, |x: int| glyph_of(luma[y * width + x]))
}

/// The first `height` rows of glyphs.
pub open spec fn glyph_rows(luma: Seq<u8>, width: nat, height: nat) -> Seq<Seq<char>> {
    Seq::new(height, |y: int| glyph_row(luma, width, y))
}

/// The rows, each but the last followed by a line feed.
pub open spec fn join_lines(rows: Seq<Seq<char>>) -> Seq<char>
    decreases rows.len(),
{
    if rows.len() == 0 {
        Seq::empty()
    } else if rows.len() == 1 {
        rows[0]
    } else {
        join_lines(rows.drop_last()) + seq!['\n'] + rows.last()
    }
}

/// The text of the grid that `width * height` brightness values make.
pub open spec fn grid_text(luma: Seq<u8>, width: nat, height: nat) -> Seq<char> {
    join_lines(glyph_rows(luma, width, height))
}

/// Computes [`grid_rows`].
pub fn grid_height(target_width: u32, width: u32, height: u32) -> (rows: u64)
    requires
        width > 0 || height == 0,
    ensures
        rows == grid_rows(target_width as nat, width as nat, height as nat),
{
    if height == 0 {
        return 0;
    }
    assert(target_width * height <= 0xffff_ffff * 0xffff_ffff) by (nonlinear_arith)
        requires
            target_width <= 0xffff_ffff,
            height <= 0xffff_ffff,
    ;
    let area: u128 = (target_width as u128) * (height as u128);
    proof {
        lemma_grid_rows_value(target_width as nat, width as nat, height as nat);
        assert(2 * CELL_ASPECT_NUM * area == 22 * area && CELL_ASPECT_DEN * width == 20 * width
            && 2 * CELL_ASPECT_DEN * width == 40 * width) by (nonlinear_arith)
            requires
                CELL_ASPECT_NUM == 11,
                CELL_ASPECT_DEN == 20,
        ;
    }
    let doubled: u128 = 2 * CELL_ASPECT_NUM * area + CELL_ASPECT_DEN * (width as u128);
    let rows: u128 = doubled / (2 * CELL_ASPECT_DEN * (width as u128));
    assert(rows <= u64::MAX) by (nonlinear_arith)
        requires
            rows == (doubled as int) / (40 * width),
            doubled == 22 * area + 20 * width,
            area <= 0xffff_ffff * 0xffff_ffff,
            width > 0,
    ;
    rows as u64
}

/// Joining one more row adds a line feed between it and the rows before.
pub proof fn lemma_join_lines_push(rows: Seq<Seq<char>>, row: Seq<char>)
    ensures
        join_lines(rows.push(row)) == if rows.len() == 0 {
            row
        } else {
            join_lines(rows) + seq!['\n'] + row
        },
{
    assert(rows.push(row).drop_last() =~= rows);
}

/// Whether the grid of `target_width` columns for `bitmap` can be built. An
/// image with rows must have columns. The rows of the grid must be countable
/// in 32 bits. And sampling must be able to hold its two buffers: one of four
/// 32-bit floats for each pixel of as many columns as the image has and as
/// many rows as the grid has, and one of four bytes for each cell of the
/// grid.
pub open spec fn grid_fits(bitmap: Bitmap, target_width: u32) -> bool {
    let rows = grid_rows(target_width as nat, bitmap.width, bitmap.height);
    &&& bitmap.width > 0 || bitmap.height == 0
    &&& rows <= u32::MAX
    &&& 16 * bitmap.width * rows <= isize::MAX
    &&& 4 * target_width * rows <= isize::MAX
}

/// The brightness of each cell of the grid of `target_width` columns for
/// `bitmap`: the image resampled to the grid's size, then turned to grey.
pub open spec fn grid_luma(bitmap: Bitmap, target_width: u32) -> Seq<u8> {
    let rows = grid_rows(target_width as nat, bitmap.width, bitmap.height) as u32;
    luma8(
        resized_nearest(
            bitmap.data,
            bitmap.width as u32,
            bitmap.height as u32,
            target_width,
            rows,
        ),
        target_width,
        rows,
    )
}

/// The ASCII art of `bitmap` at `target_width` columns.
pub open spec fn ascii_art(bitmap: Bitmap, target_width: u32) -> Seq<char> {
    grid_text(
        grid_luma(bitmap, target_width),
        target_width as nat,
        grid_rows(target_width as nat, bitmap.width, bitmap.height),
    )
}

/// What rasterizing `bitmap` at `target_width` columns gives: the ASCII art,
/// or the reason why there is none.
pub open spec fn rasterized(bitmap: Bitmap, target_width: u32) -> Result<Seq<char>, RasterError> {
    if target_width == 0 {
        Err(RasterError::ZeroWidth)
    } else if !grid_fits(bitmap, target_width) {
        Err(RasterError::TooLarge)
    } else {
        Ok(ascii_art(bitmap, target_width))
    }
}

/// Lays `width * height` brightness values out as a grid of glyphs, one row
/// to the line, the lines separated by line feeds.
pub fn glyph_grid(luma: &Vec<u8>, width: u32, height: u32) -> (text: String)
    requires
        luma.len() == width * height,
    ensures
        text@ == grid_text(luma@, width as nat, height as nat),
{
    let mut text = String::new();
    let mut y: u32 = 0;
    assert(glyph_rows(luma@, width as nat, 0) =~= Seq::<Seq<char>>::empty());
    while y < height
        invariant
            y <= height,
            luma.len() == width * height,
            text@ == grid_text(luma@, width as nat, y as nat),
        decreases height - y,
    {
        let ghost before = text@;
        if y > 0 {
            text.push('\n');
        }
        let ghost start = text@;
        let mut x: u32 = 0;
        while x < width
            invariant
                x <= width,
                y < height,
                luma.len() == width * height,
                text@ == start + glyph_row(luma@, width as nat, y as int).take(x as int),
            decreases width - x,
        {
            proof {
                assert(y * width + x < width * height && 0 <= y * width) by (nonlinear_arith)
                    requires
                        x < width,
                        y < height,
                ;
                assert(luma.len() <= usize::MAX);
            }
            let at: usize = (y as usize) * (width as usize) + (x as usize);
            text.push(glyph(luma[at]));
            proof {
                let row = glyph_row(luma@, width as nat, y as int);
                assert(row.take(x + 1) =~= row.take(x as int).push(row[x as int]));
            }
            x += 1;
        }
        proof {
            let row = glyph_row(luma@, width as nat, y as int);
            let rows = glyph_rows(luma@, width as nat, y as nat);
            assert(row.take(width as int) =~= row);
            assert(glyph_rows(luma@, width as nat, (y + 1) as nat) =~= rows.push(row));
            lemma_join_lines_push(rows, row);
            assert(before + seq!['\n'] =~= before.push('\n'));
        }
        y += 1;
    }
    text
}

/// Rasterizes `image` to ASCII art of `new_width` columns: the image is
/// resampled, nearest neighbour, to `new_width` columns and [`grid_rows`]
/// rows, turned to grey, and each cell becomes the glyph of its brightness.
/// An image without rows gives the empty text.
pub fn image_to_ascii(image: &Image, new_width: u32) -> (result: Result<String, RasterError>)
    ensures
        match result {
            Ok(text) => rasterized(image@, new_width) == Ok::<Seq<char>, RasterError>(text@),
            Err(error) => rasterized(image@, new_width) == Err::<Seq<char>, RasterError>(error),
        },
{
    if new_width == 0 {
        return Err(RasterError::ZeroWidth);
    }
    proof {
        use_type_invariant(image);
    }
    let width = image.width();
    let height = image.height();
    if width == 0 && height > 0 {
        return Err(RasterError::TooLarge);
    }
    let rows = grid_height(new_width, width, height);
    if rows > u32::MAX as u64 {
        return Err(RasterError::TooLarge);
    }
    assert(16 * width * rows <= 16 * 0xffff_ffff * 0xffff_ffff && 4 * new_width * rows <= 4
        * 0xffff_ffff * 0xffff_ffff) by (nonlinear_arith)
        requires
            width <= 0xffff_ffff,
            new_width <= 0xffff_ffff,
            rows <= 0xffff_ffff,
    ;
    let floats: u128 = 16 * (width as u128) * (rows as u128);
    let bytes: u128 = 4 * (new_width as u128) * (rows as u128);
    if floats > isize::MAX as u128 || bytes > isize::MAX as u128 {
        return Err(RasterError::TooLarge);
    }
    let new_height = rows as u32;
    let resized = resize_exact_nearest(image.pixels(), width, height, new_width, new_height);
    let luma = to_luma8(resized, new_width, new_height);
    Ok(glyph_grid(&luma, new_width, new_height))
}

/// The number of rows is `target_width * height / width * 0.55` rounded to
/// the nearest integer, halves upwards: with `q` for the exact value,
/// `rows - 1 / 2 <= q < rows + 1 / 2`. Both sides are multiplied by
/// `20 * width` here, which keeps the statement within the integers.
pub proof fn lemma_grid_rows_nearest(target_width: nat, width: nat, height: nat)
    requires
        width > 0,
    ensures
        20 * width * grid_rows(target_width, width, height) - 10 * width <= 11 * (target_width
            * height),
        11 * (target_width * height) < 20 * width * grid_rows(target_width, width, height) + 10
            * width,
{
    lemma_grid_rows_value(target_width, width, height);
    let rows = grid_rows(target_width, width, height);
    let area = target_width * height;
    assert(20 * width * rows - 10 * width <= 11 * area && 11 * area < 20 * width * rows + 10
        * width) by (nonlinear_arith)
        requires
            width > 0,
            rows == (22 * area + 20 * width) / (40 * width),
    ;
}

/// A grid as wide as the image has the image's columns one for one, and
/// 0.55 times its rows, rounded: the fixed vertical compression is all that
/// keeps it from one glyph to the pixel.
pub proof fn lemma_grid_rows_same_width(width: nat, height: nat)
    requires
        width > 0,
    ensures
        grid_rows(width, width, height) == (11 * height + 10) / 20,
{
    lemma_grid_rows_value(width, width, height);
    assert((22 * (width * height) + 20 * width) / (40 * width) == (11 * height + 10) / 20)
        by (nonlinear_arith)
        requires
            width > 0,
    ;
}

/// Rasterizing depends on nothing but the image's content and the width:
/// two images with the same dimensions and channel values give the same
/// result, text or failure.
pub proof fn lemma_rasterized_deterministic(first: Bitmap, second: Bitmap, target_width: u32)
    requires
        first.width == second.width,
        first.height == second.height,
        first.data =~= second.data,
    ensures
        rasterized(first, target_width) == rasterized(second, target_width),
{
}

/// No glyph is a line feed: the line feeds of a grid's text are those
/// between its rows.
pub proof fn lemma_glyph_not_line_feed(luma: u8)
    ensures
        glyph_of(luma) != '\n',
{
    lemma_ramp_index_in_range(luma);
    lemma_ramp_contents();
}

/// The ASCII art of an image is made of exactly [`grid_rows`] lines of
/// exactly `target_width` glyphs each: its text is these lines joined by
/// line feeds, and no line holds a line feed of its own.
pub proof fn lemma_ascii_art_shape(bitmap: Bitmap, target_width: u32)
    requires
        bitmap.wf(),
    ensures
        ({
            let height = grid_rows(target_width as nat, bitmap.width, bitmap.height);
            let lines = glyph_rows(grid_luma(bitmap, target_width), target_width as nat, height);
            &&& ascii_art(bitmap, target_width) == join_lines(lines)
            &&& lines.len() == height
            &&& forall|y: int| 0 <= y < height ==> (#[trigger] lines[y]).len() == target_width
            &&& forall|y: int, x: int|
                0 <= y < height && 0 <= x < target_width ==> (#[trigger] lines[y][x]) != '\n'
        }),
{
    let height = grid_rows(target_width as nat, bitmap.width, bitmap.height);
    let luma = grid_luma(bitmap, target_width);
    let lines = glyph_rows(luma, target_width as nat, height);
    assert forall|y: int, x: int| 0 <= y < height && 0 <= x < target_width implies (
    #[trigger] lines[y][x]) != '\n' by {
        lemma_glyph_not_line_feed(luma[y * target_width + x]);
    }
}

/// Adding a row to a grid adds, after a line feed where rows came before,
/// the glyphs of that row.
proof fn lemma_grid_text_step(luma: Seq<u8>, width: nat, height: nat)
    requires
        height > 0,
    ensures
        grid_text(luma, width, height) == if height == 1 {
            glyph_row(luma, width, 0)
        } else {
            grid_text(luma, width, (height - 1) as nat) + seq!['\n'] + glyph_row(
                luma,
                width,
                height - 1,
            )
        },
{
    let rows = glyph_rows(luma, width, (height - 1) as nat);
    let row = glyph_row(luma, width, height - 1);
    assert(glyph_rows(luma, width, height) =~= rows.push(row));
    lemma_join_lines_push(rows, row);
}

/// Length of a grid's text: `width` glyphs to the row, and a line feed
/// between two rows.
pub proof fn lemma_grid_text_len(luma: Seq<u8>, width: nat, height: nat)
    ensures
        grid_text(luma, width, height).len() == if height == 0 {
            0
        } else {
            height * (width + 1) - 1
        },
    decreases height,
{
    if height == 0 {
        assert(glyph_rows(luma, width, 0) =~= Seq::<Seq<char>>::empty());
    } else {
        lemma_grid_text_step(luma, width, height);
        lemma_grid_text_len(luma, width, (height - 1) as nat);
        assert((height - 1) * (width + 1) + (width + 1) == height * (width + 1))
            by (nonlinear_arith);
    }
}

/// Where a cell stands in a grid's text: the glyph of column `x` of row `y`
/// is character number `y * (width + 1) + x`.
pub proof fn lemma_grid_text_cell(luma: Seq<u8>, width: nat, height: nat, x: int, y: int)
    requires
        0 <= x < width,
        0 <= y < height,
    ensures
        0 <= y * (width + 1) + x < grid_text(luma, width, height).len(),
        grid_text(luma, width, height)[y * (width + 1) + x] == glyph_of(luma[y * width + x]),
    decreases height,
{
    lemma_grid_text_step(luma, width, height);
    lemma_grid_text_len(luma, width, height);
    lemma_grid_text_len(luma, width, (height - 1) as nat);
    assert((height - 1) * (width + 1) + (width + 1) == height * (width + 1)) by (nonlinear_arith);
    assert(0 <= y * (width + 1) && (y + 1) * (width + 1) <= height * (width + 1) && (y + 1) * (
    width + 1) == y * (width + 1) + (width + 1)) by (nonlinear_arith)
        requires
            0 <= y < height,
    ;
    if y < height - 1 {
        lemma_grid_text_cell(luma, width, (height - 1) as nat, x, y);
    }
}

/// Where the line feeds stand in a grid's text: after the `width` glyphs of
/// each row but the last.
pub proof fn lemma_grid_text_line_feed(luma: Seq<u8>, width: nat, height: nat, y: int)
    requires
        0 <= y < height - 1,
    ensures
        0 <= y * (width + 1) + width < grid_text(luma, width, height).len(),
        grid_text(luma, width, height)[y * (width + 1) + width] == '\n',
    decreases height,
{
    lemma_grid_text_step(luma, width, height);
    lemma_grid_text_len(luma, width, height);
    lemma_grid_text_len(luma, width, (height - 1) as nat);
    assert((height - 1) * (width + 1) + (width + 1) == height * (width + 1)) by (nonlinear_arith);
    assert(0 <= y * (width + 1) && (y + 2) * (width + 1) <= height * (width + 1) && (y + 2) * (
    width + 1) == y * (width + 1) + 2 * (width + 1)) by (nonlinear_arith)
        requires
            0 <= y < height - 1,
    ;
    if y < height - 2 {
        lemma_grid_text_line_feed(luma, width, (height - 1) as nat, y);
    }
}

/// [`grid_rows`] with the cell's proportions written out as numbers.
pub proof fn lemma_grid_rows_value(target_width: nat, width: nat, height: nat)
    requires
        width > 0,
    ensures
        grid_rows(target_width, width, height) == (22 * (target_width * height) + 20 * width) / (40
            * width),
{
    assert(2 * CELL_ASPECT_NUM * target_width * height == 22 * (target_width * height))
        by (nonlinear_arith)
        requires
            CELL_ASPECT_NUM == 11,
    ;
    assert(CELL_ASPECT_DEN * width == 20 * width && 2 * CELL_ASPECT_DEN * width == 40 * width)
        by (nonlinear_arith)
        requires
            CELL_ASPECT_DEN == 20,
    ;
    assert((22 * (target_width * height) + 20 * width) / (40 * width) >= 0) by (nonlinear_arith)
        requires
            width > 0,
    ;
    if height == 0 {
        assert((22 * (target_width * height) + 20 * width) / (40 * width) == 0)
            by (nonlinear_arith)
            requires
                width > 0,
                height == 0,
        ;
    }
}

} // verus!
