//! Framebuffer rendering: one printable text frame from the pixel grid.
//!
//! A frame is the rows of the grid, each cell drawn as `*` (lit) or a
//! space (unlit), with a newline between consecutive rows.  Writing the
//! frame to a terminal is the rendering collaborator's job.

use vstd::prelude::*;

verus! {

/// The first `k` cells of one rendered row.
pub open spec fn rendered_row_prefix(pixels: Seq<bool>, width: int, row: int, k: int) -> Seq<char> {
    Seq::new(
        k as nat,
        |c: int|
            if pixels[row * width + c] {
                '*'
            } else {
                ' '
            },
    )
}

/// One rendered row: `*` for a lit cell, a space for an unlit one.
pub open spec fn rendered_row(pixels: Seq<bool>, width: int, row: int) -> Seq<char> {
    rendered_row_prefix(pixels, width, row, width)
}

/// The newline put before every row but the first.
pub open spec fn row_sep(row: int) -> Seq<char> {
    if row > 0 {
        seq!['\n']
    } else {
        Seq::empty()
    }
}

/// The first `count` rendered rows, with a newline between consecutive rows.
pub open spec fn rendered_rows(pixels: Seq<bool>, width: int, count: int) -> Seq<char>
    decreases count,
{
    if count <= 0 {
        Seq::empty()
    } else {
        rendered_rows(pixels, width, count - 1) + row_sep(count - 1) + rendered_row(
            pixels,
            width,
            count - 1,
        )
    }
}

/// Renders the pixel grid as text, row by row: `*` for a lit cell, a space
/// for an unlit one, a newline between consecutive rows.
pub fn render_frame(pixels: &Vec<bool>, width: usize, height: usize) -> (frame: String)
    requires
        pixels@.len() == width * height,
    ensures
        frame@ == rendered_rows(pixels@, width as int, height as int),
{
    let total: usize = pixels.len();
    let mut frame: String = String::new();
    let mut row: usize = 0;
    proof {
        reveal_strlit("\n");
        reveal_strlit("*");
        reveal_strlit(" ");
    }
    while row < height
        invariant
            pixels@.len() == width * height,
            total == pixels@.len(),
            row <= height,
            frame@ == rendered_rows(pixels@, width as int, row as int),
        decreases height - row,
    {
        if row > 0 {
            frame.append("\n");
            proof {
                reveal_strlit("\n");
                assert(frame@ =~= rendered_rows(pixels@, width as int, row as int) + row_sep(
                    row as int,
                ));
            }
        }
        let ghost row_start = frame@;
        let mut col: usize = 0;
        while col < width
            invariant
                pixels@.len() == width * height,
                total == pixels@.len(),
                row < height,
                col <= width,
                row_start == rendered_rows(pixels@, width as int, row as int) + row_sep(row as int),
                frame@ == row_start + rendered_row_prefix(
                    pixels@,
                    width as int,
                    row as int,
                    col as int,
                ),
            decreases width - col,
        {
            proof {
                assert(row * width + col < width * height) by (nonlinear_arith)
                    requires
                        row < height,
                        col < width,
                ;
            }
            let cell: usize = row * width + col;
            if pixels[cell] {
                frame.append("*");
            } else {
                frame.append(" ");
            }
            proof {
                reveal_strlit("*");
                reveal_strlit(" ");
                assert(frame@ =~= row_start + rendered_row_prefix(
                    pixels@,
                    width as int,
                    row as int,
                    col as int + 1,
                ));
            }
            col = col + 1;
        }
        proof {
            assert(frame@ =~= rendered_rows(pixels@, width as int, row as int + 1));
        }
        row = row + 1;
    }
    frame
}

} // verus!
