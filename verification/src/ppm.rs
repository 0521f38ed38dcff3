//! The ASCII PPM serializer: header `P3`, dimensions, the maximum
//! channel value, then one line per pixel in row-major order.

use vstd::prelude::*;
use vstd::string::StringExecFns;
use crate::types::{Image, PPMColor};

verus! {

/// The decimal digit characters.
pub open spec fn digit_char_s(d: int) -> char {
    if d == 0 {
        '0'
    } else if d == 1 {
        '1'
    } else if d == 2 {
        '2'
    } else if d == 3 {
        '3'
    } else if d == 4 {
        '4'
    } else if d == 5 {
        '5'
    } else if d == 6 {
        '6'
    } else if d == 7 {
        '7'
    } else if d == 8 {
        '8'
    } else {
        '9'
    }
}

/// Base-10 rendering of a non-negative integer, without leading zeros.
pub open spec fn dec_s(n: int) -> Seq<char>
    decreases n,
{
    if n < 10 {
        seq![digit_char_s(n)]
    } else {
        dec_s(n / 10).push(digit_char_s(n % 10))
    }
}

/// One pixel line: the three channel values separated by spaces.
pub open spec fn pixel_line_s(p: PPMColor) -> Seq<char> {
    dec_s(p.0 as int) + seq![' '] + dec_s(p.1 as int) + seq![' '] + dec_s(p.2 as int) + seq!['\n']
}

/// The pixel lines of one row, left to right.
pub open spec fn row_text_s(row: Seq<PPMColor>) -> Seq<char>
    decreases row.len(),
{
    if row.len() == 0 {
        Seq::empty()
    } else {
        row_text_s(row.drop_last()) + pixel_line_s(row.last())
    }
}

/// The pixel lines of all rows, top to bottom.
pub open spec fn body_text_s(rows: Seq<Seq<PPMColor>>) -> Seq<char>
    decreases rows.len(),
{
    if rows.len() == 0 {
        Seq::empty()
    } else {
        body_text_s(rows.drop_last()) + row_text_s(rows.last())
    }
}

/// The whole PPM document of an image with the given dimensions.
pub open spec fn ppm_text_s(rows: Seq<Seq<PPMColor>>) -> Seq<char> {
    seq!['P', '3', '\n'] + dec_s(rows[0].len() as int) + seq![' '] + dec_s(rows.len() as int)
        + seq!['\n'] + seq!['2', '5', '5', '\n'] + body_text_s(rows)
}

/// An image as a sequence of pixel rows.
pub open spec fn rows_view_s(img: Seq<Vec<PPMColor>>) -> Seq<Seq<PPMColor>> {
    img.map_values(|v: Vec<PPMColor>| v@)
}

fn push_digit(out: &mut String, d: u8)
    requires
        d < 10,
    ensures
        final(out)@ == old(out)@ + seq![digit_char_s(d as int)],
{
    proof {
        reveal_strlit("0");
        reveal_strlit("1");
        reveal_strlit("2");
        reveal_strlit("3");
        reveal_strlit("4");
        reveal_strlit("5");
        reveal_strlit("6");
        reveal_strlit("7");
        reveal_strlit("8");
        reveal_strlit("9");
    }
    match d {
        0 => out.append("0"),
        1 => out.append("1"),
        2 => out.append("2"),
        3 => out.append("3"),
        4 => out.append("4"),
        5 => out.append("5"),
        6 => out.append("6"),
        7 => out.append("7"),
        8 => out.append("8"),
        _ => out.append("9"),
    }
    proof {
        assert(out@ =~= old(out)@ + seq![digit_char_s(d as int)]);
    }
}

fn push_dec(out: &mut String, n: usize)
    ensures
        final(out)@ == old(out)@ + dec_s(n as int),
    decreases n,
{
    if n < 10 {
        push_digit(out, n as u8);
    } else {
        push_dec(out, n / 10);
        push_digit(out, (n % 10) as u8);
        proof {
            assert(out@ =~= old(out)@ + dec_s(n as int));
        }
    }
}

/// Serializes an image as ASCII PPM text: `P3`, then `<cols> <rows>`,
/// then `255`, then one `<r> <g> <b>` line per pixel, row-major.
pub fn write_ppm(img: &Image) -> (out: String)
    requires
        img@.len() > 0,
    ensures
        out@ == ppm_text_s(rows_view_s(img@)),
{
    let ghost rows = rows_view_s(img@);
    let num_rows: usize = img.len();
    let num_cols: usize = img[0].len();

    let mut out = String::new();
    out.append("P3\n");
    push_dec(&mut out, num_cols);
    out.append(" ");
    push_dec(&mut out, num_rows);
    out.append("\n");
    out.append("255\n");
    proof {
        reveal_strlit("P3\n");
        reveal_strlit(" ");
        reveal_strlit("\n");
        reveal_strlit("255\n");
    }
    let ghost header = out@;
    assert(header =~= seq!['P', '3', '\n'] + dec_s(rows[0].len() as int) + seq![' '] + dec_s(
        rows.len() as int,
    ) + seq!['\n'] + seq!['2', '5', '5', '\n']);

    let mut row: usize = 0;
    while row < num_rows
        invariant
            num_rows == img@.len(),
            rows == rows_view_s(img@),
            0 <= row <= num_rows,
            out@ == header + body_text_s(rows.take(row as int)),
        decreases num_rows - row,
    {
        proof {
            assert(rows.take(row + 1).drop_last() =~= rows.take(row as int));
        }
        let ghost row_start = out@;
        let cols: usize = img[row].len();
        let mut col: usize = 0;
        while col < cols
            invariant
                num_rows == img@.len(),
                rows == rows_view_s(img@),
                0 <= row < num_rows,
                cols == img@[row as int]@.len(),
                0 <= col <= cols,
                out@ == row_start + row_text_s(rows[row as int].take(col as int)),
            decreases cols - col,
        {
            proof {
                assert(rows[row as int].take(col + 1).drop_last() =~= rows[row as int].take(
                    col as int,
                ));
            }
            let ghost line_start = out@;
            let (r, g, b) = img[row][col];
            push_dec(&mut out, r as usize);
            out.append(" ");
            push_dec(&mut out, g as usize);
            out.append(" ");
            push_dec(&mut out, b as usize);
            out.append("\n");
            proof {
                reveal_strlit(" ");
                reveal_strlit("\n");
                assert(out@ =~= line_start + pixel_line_s(rows[row as int][col as int]));
                assert(out@ =~= row_start + row_text_s(rows[row as int].take(col + 1)));
            }
            col = col + 1;
        }
        proof {
            assert(rows[row as int].take(cols as int) =~= rows[row as int]);
            assert(out@ =~= header + body_text_s(rows.take(row + 1)));
        }
        row = row + 1;
    }
    proof {
        assert(rows.take(num_rows as int) =~= rows);
    }
    out
}

} // verus!
