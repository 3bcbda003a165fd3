//! One-bit images: rows of dots packed into bytes, leftmost dot first.

use vstd::prelude::*;
use vstd::arithmetic::div_mod::lemma_fundamental_div_mod_converse;
use vstd::relations::injective_on;
use vstd::set_lib::{lemma_int_range, lemma_len_subset, lemma_map_size, set_int_range};
use crate::bitmap::{fits, lemma_cell, product};
use crate::codes::ceil_div;

verus! {

/// Dot `k` of a byte, the most significant bit being dot zero.
pub open spec fn dot(byte: u8, k: int) -> bool {
    (byte >> ((7 - k) as u8)) & 1 == 1
}

/// The byte that holds eight dots.
pub open spec fn packed(
    d0: bool,
    d1: bool,
    d2: bool,
    d3: bool,
    d4: bool,
    d5: bool,
    d6: bool,
    d7: bool,
) -> u8 {
    (if d0 {
        0x80u8
    } else {
        0
    }) | (if d1 {
        0x40u8
    } else {
        0
    }) | (if d2 {
        0x20u8
    } else {
        0
    }) | (if d3 {
        0x10u8
    } else {
        0
    }) | (if d4 {
        0x08u8
    } else {
        0
    }) | (if d5 {
        0x04u8
    } else {
        0
    }) | (if d6 {
        0x02u8
    } else {
        0
    }) | (if d7 {
        0x01u8
    } else {
        0
    })
}

/// Dot of a row-based image, zero outside the data.
pub open spec fn raster_dot(data: Seq<u8>, bytes_per_line: int, x: int, y: int) -> bool {
    &&& y * bytes_per_line + x / 8 < data.len()
    &&& dot(data[y * bytes_per_line + x / 8], x % 8)
}

/// Dot of a column-based image. A column takes `height / 8` bytes, each of them
/// eight dots from top to bottom.
pub open spec fn column_dot(data: Seq<u8>, height: int, x: int, y: int) -> bool {
    &&& y / 8 < height / 8
    &&& x * (height / 8) + y / 8 < data.len()
    &&& dot(data[x * (height / 8) + y / 8], y % 8)
}

/// Dot of a column-based image that is `width` dots wide.
pub open spec fn column_dot_clipped(
    data: Seq<u8>,
    width: int,
    height: int,
    x: int,
    y: int,
) -> bool {
    x < width && column_dot(data, height, x, y)
}

/// The eight dots at `x`, `y` of a column-based image as one byte of a row.
pub open spec fn row_byte(data: Seq<u8>, width: int, height: int, x: int, y: int) -> u8 {
    packed(
        column_dot_clipped(data, width, height, x, y),
        column_dot_clipped(data, width, height, x + 1, y),
        column_dot_clipped(data, width, height, x + 2, y),
        column_dot_clipped(data, width, height, x + 3, y),
        column_dot_clipped(data, width, height, x + 4, y),
        column_dot_clipped(data, width, height, x + 5, y),
        column_dot_clipped(data, width, height, x + 6, y),
        column_dot_clipped(data, width, height, x + 7, y),
    )
}

/// A column-based image, turned into rows.
pub open spec fn rows_of_columns(data: Seq<u8>, width: int, height: int) -> Seq<u8> {
    let bytes_per_line = ceil_div(width, 8);
    Seq::new(
        (bytes_per_line * height) as nat,
        |p: int| row_byte(data, width, height, (p % bytes_per_line) * 8, p / bytes_per_line),
    )
}

proof fn lemma_packed_dot(
    d0: bool,
    d1: bool,
    d2: bool,
    d3: bool,
    d4: bool,
    d5: bool,
    d6: bool,
    d7: bool,
)
    ensures
        dot(packed(d0, d1, d2, d3, d4, d5, d6, d7), 0) == d0,
        dot(packed(d0, d1, d2, d3, d4, d5, d6, d7), 1) == d1,
        dot(packed(d0, d1, d2, d3, d4, d5, d6, d7), 2) == d2,
        dot(packed(d0, d1, d2, d3, d4, d5, d6, d7), 3) == d3,
        dot(packed(d0, d1, d2, d3, d4, d5, d6, d7), 4) == d4,
        dot(packed(d0, d1, d2, d3, d4, d5, d6, d7), 5) == d5,
        dot(packed(d0, d1, d2, d3, d4, d5, d6, d7), 6) == d6,
        dot(packed(d0, d1, d2, d3, d4, d5, d6, d7), 7) == d7,
{
    let b0 = if d0 { 0x80u8 } else { 0 };
    let b1 = if d1 { 0x40u8 } else { 0 };
    let b2 = if d2 { 0x20u8 } else { 0 };
    let b3 = if d3 { 0x10u8 } else { 0 };
    let b4 = if d4 { 0x08u8 } else { 0 };
    let b5 = if d5 { 0x04u8 } else { 0 };
    let b6 = if d6 { 0x02u8 } else { 0 };
    let b7 = if d7 { 0x01u8 } else { 0 };
    let b = b0 | b1 | b2 | b3 | b4 | b5 | b6 | b7;
    assert((b >> 7) & 1 == (if b0 == 0 { 0u8 } else { 1 }) && (b >> 6) & 1 == (if b1 == 0 {
        0u8
    } else {
        1
    }) && (b >> 5) & 1 == (if b2 == 0 { 0u8 } else { 1 }) && (b >> 4) & 1 == (if b3 == 0 {
        0u8
    } else {
        1
    }) && (b >> 3) & 1 == (if b4 == 0 { 0u8 } else { 1 }) && (b >> 2) & 1 == (if b5 == 0 {
        0u8
    } else {
        1
    }) && (b >> 1) & 1 == (if b6 == 0 { 0u8 } else { 1 }) && (b >> 0) & 1 == (if b7 == 0 {
        0u8
    } else {
        1
    })) by (bit_vector)
        requires
            b == b0 | b1 | b2 | b3 | b4 | b5 | b6 | b7,
            b0 == 0 || b0 == 0x80,
            b1 == 0 || b1 == 0x40,
            b2 == 0 || b2 == 0x20,
            b3 == 0 || b3 == 0x10,
            b4 == 0 || b4 == 0x08,
            b5 == 0 || b5 == 0x04,
            b6 == 0 || b6 == 0x02,
            b7 == 0 || b7 == 0x01,
    ;
}

/// Turning columns into rows moves no dot: every dot inside the width is where
/// it was, and the dots that pad a row are white.
pub proof fn rows_keep_dots(data: Seq<u8>, width: int, height: int, x: int, y: int)
    requires
        0 < width,
        0 <= y < height,
        0 <= x < 8 * ceil_div(width, 8),
    ensures
        raster_dot(rows_of_columns(data, width, height), ceil_div(width, 8), x, y)
            == column_dot_clipped(data, width, height, x, y),
{
    let bpl = ceil_div(width, 8);
    let p = y * bpl + x / 8;
    assert(0 <= p < bpl * height) by (nonlinear_arith)
        requires
            p == y * bpl + x / 8,
            0 <= x / 8 < bpl,
            0 <= y < height,
    ;
    lemma_fundamental_div_mod_converse(p, bpl, y, x / 8);
    let x0 = (x / 8) * 8;
    lemma_packed_dot(
        column_dot_clipped(data, width, height, x0, y),
        column_dot_clipped(data, width, height, x0 + 1, y),
        column_dot_clipped(data, width, height, x0 + 2, y),
        column_dot_clipped(data, width, height, x0 + 3, y),
        column_dot_clipped(data, width, height, x0 + 4, y),
        column_dot_clipped(data, width, height, x0 + 5, y),
        column_dot_clipped(data, width, height, x0 + 6, y),
        column_dot_clipped(data, width, height, x0 + 7, y),
    );
    assert(x == x0 + x % 8);
}

proof fn lemma_same_dots(a: u8, b: u8)
    requires
        forall|k: int| 0 <= k < 8 ==> #[trigger] dot(a, k) == dot(b, k),
    ensures
        a == b,
{
    assert(dot(a, 0) == dot(b, 0) && dot(a, 1) == dot(b, 1) && dot(a, 2) == dot(b, 2) && dot(a, 3)
        == dot(b, 3) && dot(a, 4) == dot(b, 4) && dot(a, 5) == dot(b, 5) && dot(a, 6) == dot(b, 6)
        && dot(a, 7) == dot(b, 7));
    assert(((a >> 7) & 1 == 1) == ((b >> 7) & 1 == 1) && ((a >> 6) & 1 == 1) == ((b >> 6) & 1 == 1)
        && ((a >> 5) & 1 == 1) == ((b >> 5) & 1 == 1) && ((a >> 4) & 1 == 1) == ((b >> 4) & 1 == 1)
        && ((a >> 3) & 1 == 1) == ((b >> 3) & 1 == 1) && ((a >> 2) & 1 == 1) == ((b >> 2) & 1 == 1)
        && ((a >> 1) & 1 == 1) == ((b >> 1) & 1 == 1) && ((a >> 0) & 1 == 1) == ((b >> 0) & 1 == 1)
        ==> a == b) by (bit_vector);
}

/// Place `y` of line `x`, in lines of `h` places, as one number.
proof fn lemma_place(w: int, h: int, x: int, y: int)
    requires
        0 <= x < w,
        0 <= y < h,
        h % 8 == 0,
    ensures
        0 <= x * h + y < w * h,
        (x * h + y) / h == x,
        (x * h + y) % h == y,
        (x * h + y) / 8 == x * (h / 8) + y / 8,
        (x * h + y) % 8 == y % 8,
        0 <= x * (h / 8) + y / 8 < w * (h / 8),
        8 * (w * (h / 8)) == w * h,
{
    let b = h / 8;
    assert(h == 8 * b);
    assert(x * h == 8 * (x * b)) by (nonlinear_arith)
        requires
            h == 8 * b,
    ;
    assert(w * h == 8 * (w * b)) by (nonlinear_arith)
        requires
            h == 8 * b,
    ;
    assert(0 <= x * b && x * b + b <= w * b) by (nonlinear_arith)
        requires
            0 <= x,
            x + 1 <= w,
            0 <= b,
    ;
    lemma_fundamental_div_mod_converse(x * h + y, h, x, y);
}

/// The dot of an image in columns that has all its data.
proof fn lemma_turned_dot(data: Seq<u8>, width: int, height: int, x: int, y: int)
    requires
        0 <= x < width,
        0 <= y < height,
        width % 8 == 0,
        height % 8 == 0,
        data.len() == width * (height / 8),
    ensures
        ({
            let rows = rows_of_columns(data, width, height);
            &&& rows.len() == height * (width / 8)
            &&& dot(rows[(y * width + x) / 8], (y * width + x) % 8) == dot(
                data[(x * height + y) / 8],
                (x * height + y) % 8,
            )
        }),
{
    lemma_place(width, height, x, y);
    lemma_place(height, width, y, x);
    assert(ceil_div(width, 8) == width / 8);
    assert((width / 8) * height == height * (width / 8)) by (nonlinear_arith);
    rows_keep_dots(data, width, height, x, y);
}

/// Turning an image in columns into rows, and the result again with width and
/// height exchanged, gives the image back.
#[verifier::rlimit(30)]
pub proof fn turning_twice_is_nothing(data: Seq<u8>, width: int, height: int)
    requires
        0 <= width,
        0 <= height,
        width % 8 == 0,
        height % 8 == 0,
        data.len() == width * (height / 8),
    ensures
        rows_of_columns(rows_of_columns(data, width, height), height, width) == data,
{
    let rows = rows_of_columns(data, width, height);
    let back = rows_of_columns(rows, height, width);
    let b = height / 8;
    assert(ceil_div(height, 8) == b && ceil_div(width, 8) == width / 8);
    assert(b * width == width * b) by (nonlinear_arith);
    assert(0 <= (width / 8) * height) by (nonlinear_arith)
        requires
            0 <= width,
            0 <= height,
    ;
    assert((width / 8) * height == height * (width / 8)) by (nonlinear_arith);
    assert forall|p: int| 0 <= p < data.len() implies back[p] == data[p] by {
        assert(b > 0) by (nonlinear_arith)
            requires
                0 <= p < width * b,
                0 <= b,
        ;
        lemma_cell(b, width, p);
        let x = p / b;
        assert forall|k: int| 0 <= k < 8 implies #[trigger] dot(back[p], k) == dot(data[p], k) by {
            let y = 8 * (p % b) + k;
            lemma_place(width, height, x, y);
            lemma_place(height, width, y, x);
            assert(x * b == (p / b) * b);
            lemma_turned_dot(data, width, height, x, y);
            lemma_turned_dot(rows, height, width, y, x);
        }
        lemma_same_dots(back[p], data[p]);
    }
    assert(back =~= data);
}

/// The places of the printed dots of an image.
pub open spec fn printed_dots(data: Seq<u8>) -> Set<int> {
    Set::new(|k: int| 0 <= k < 8 * data.len() && dot(data[k / 8], k % 8))
}

/// How many dots of an image are printed.
pub open spec fn dot_count(data: Seq<u8>) -> nat {
    printed_dots(data).len()
}

/// Turning an image in columns into rows keeps the number of printed dots.
pub proof fn turning_keeps_dot_count(data: Seq<u8>, width: int, height: int)
    requires
        0 <= width,
        0 <= height,
        width % 8 == 0,
        height % 8 == 0,
        data.len() == width * (height / 8),
    ensures
        dot_count(rows_of_columns(data, width, height)) == dot_count(data),
{
    let rows = rows_of_columns(data, width, height);
    let before = printed_dots(data);
    let after = printed_dots(rows);
    let turned = |k: int| (k % height) * width + k / height;
    assert(ceil_div(width, 8) == width / 8);
    assert(rows.len() == height * (width / 8)) by {
        assert((width / 8) * height == height * (width / 8)) by (nonlinear_arith);
        assert(0 <= (width / 8) * height) by (nonlinear_arith)
            requires
                0 <= width,
                0 <= height,
        ;
    }
    assert(8 * data.len() == width * height) by {
        assert(8 * (width * (height / 8)) == width * (8 * (height / 8))) by (nonlinear_arith);
    }
    assert(8 * rows.len() == width * height) by {
        assert(8 * (height * (width / 8)) == height * (8 * (width / 8))) by (nonlinear_arith);
        assert(height * width == width * height) by (nonlinear_arith);
    }
    assert forall|k: int| #[trigger] before.contains(k) implies after.contains(turned(k)) && turned(
        k,
    ) / width == k % height && turned(k) % width == k / height by {
        lemma_line_place(width, height, k);
        lemma_place(height, width, k % height, k / height);
        lemma_turned_dot(data, width, height, k / height, k % height);
    }
    assert forall|j: int| #[trigger] after.contains(j) implies before.map(turned).contains(j) by {
        assert(height * width == width * height) by (nonlinear_arith);
        lemma_line_place(height, width, j);
        let k = (j % width) * height + j / width;
        lemma_place(width, height, j % width, j / width);
        lemma_turned_dot(data, width, height, j % width, j / width);
        assert(before.contains(k) && turned(k) == j);
    }
    assert(before.map(turned) =~= after);
    assert(injective_on(turned, before)) by {
        assert forall|j: int, k: int|
            before.contains(j) && before.contains(k) && #[trigger] turned(j) == #[trigger] turned(
                k,
            ) implies j == k by {
            lemma_line_place(width, height, j);
            lemma_line_place(width, height, k);
        }
    }
    lemma_int_range(0, width * height);
    lemma_len_subset(before, set_int_range(0, width * height));
    lemma_map_size(before, after, turned);
}

/// A place as its line and the place in it.
proof fn lemma_line_place(w: int, h: int, k: int)
    requires
        0 <= k < w * h,
        0 <= w,
        0 <= h,
    ensures
        0 <= k / h < w,
        0 <= k % h < h,
        k == (k / h) * h + k % h,
{
    assert(w * h == h * w) by (nonlinear_arith);
    lemma_cell(h, w, k);
}

pub(crate) fn bytes_for_dots(width: usize) -> (r: usize)
    ensures
        r == ceil_div(width as int, 8),
{
    if width % 8 == 0 {
        width / 8
    } else {
        width / 8 + 1
    }
}

fn pack_dots(
    d0: bool,
    d1: bool,
    d2: bool,
    d3: bool,
    d4: bool,
    d5: bool,
    d6: bool,
    d7: bool,
) -> (r: u8)
    ensures
        r == packed(d0, d1, d2, d3, d4, d5, d6, d7),
{
    (if d0 { 0x80u8 } else { 0 }) | (if d1 { 0x40u8 } else { 0 }) | (if d2 {
        0x20u8
    } else {
        0
    }) | (if d3 { 0x10u8 } else { 0 }) | (if d4 { 0x08u8 } else { 0 }) | (if d5 {
        0x04u8
    } else {
        0
    }) | (if d6 { 0x02u8 } else { 0 }) | (if d7 { 0x01u8 } else { 0 })
}

fn column_dot_at(column_data: &[u8], width: usize, height: usize, x: usize, y: usize) -> (r: bool)
    requires
        y < height,
        ceil_div(width as int, 8) * height <= usize::MAX / 2,
    ensures
        r == column_dot_clipped(column_data@, width as int, height as int, x as int, y as int),
{
    if x >= width || y / 8 >= height / 8 {
        return false;
    }
    proof {
        assert(x * (height as int / 8) + y as int / 8 <= ceil_div(width as int, 8) * height)
            by (nonlinear_arith)
            requires
                x < width,
                0 <= y as int / 8 < height as int / 8,
        {
            let b = ceil_div(width as int, 8);
            let c = height as int / 8;
            assert(width <= 8 * b);
            assert((x + 1) * c <= 8 * b * c) by (nonlinear_arith)
                requires
                    x + 1 <= 8 * b,
                    c >= 0,
            ;
            assert(8 * b * c <= b * height) by (nonlinear_arith)
                requires
                    8 * c <= height,
                    b >= 0,
            ;
            assert(x * c + c == (x + 1) * c) by (nonlinear_arith);
        }
        assert(0 <= x * (height as int / 8)) by (nonlinear_arith)
            requires
                x >= 0,
                height >= 0,
        ;
    }
    let index: usize = x * (height / 8) + y / 8;
    index < column_data.len() && (column_data[index] >> ((7 - y % 8) as u8)) & 1 == 1
}

/// Turns a column-based image into rows. Each byte of a column holds eight dots
/// from top to bottom, each byte of a row eight dots from left to right; what
/// the data does not cover is white.
pub fn column_to_raster(column_data: &[u8], width: usize, height: usize) -> (r: Vec<u8>)
    requires
        ceil_div(width as int, 8) * height <= usize::MAX / 2,
    ensures
        r@ == rows_of_columns(column_data@, width as int, height as int),
{
    let bytes_per_row: usize = bytes_for_dots(width);
    let mut raster_data: Vec<u8> = Vec::new();
    let ghost rows = rows_of_columns(column_data@, width as int, height as int);
    let mut y: usize = 0;
    proof {
        assert(0 <= bytes_per_row * height) by (nonlinear_arith);
        assert(rows.take(0) =~= raster_data@);
    }
    while y < height
        invariant
            y <= height,
            bytes_per_row == ceil_div(width as int, 8),
            bytes_per_row * height <= usize::MAX / 2,
            rows == rows_of_columns(column_data@, width as int, height as int),
            rows.len() == bytes_per_row * height,
            0 <= y * bytes_per_row <= rows.len(),
            raster_data@ == rows.take(y * bytes_per_row),
        decreases height - y,
    {
        proof {
            assert((y + 1) * bytes_per_row <= height * bytes_per_row) by (nonlinear_arith)
                requires
                    y + 1 <= height,
            ;
            assert((y + 1) * bytes_per_row == y * bytes_per_row + bytes_per_row)
                by (nonlinear_arith);
            assert(height * bytes_per_row == bytes_per_row * height) by (nonlinear_arith);
        }
        let mut k: usize = 0;
        while k < bytes_per_row
            invariant
                y < height,
                k <= bytes_per_row,
                bytes_per_row == ceil_div(width as int, 8),
                bytes_per_row * height <= usize::MAX / 2,
                rows == rows_of_columns(column_data@, width as int, height as int),
                rows.len() == bytes_per_row * height,
                0 <= y * bytes_per_row,
                y * bytes_per_row + bytes_per_row <= rows.len(),
                raster_data@ == rows.take(y * bytes_per_row + k),
            decreases bytes_per_row - k,
        {
            let ghost p = y * bytes_per_row + k;
            proof {
                lemma_fundamental_div_mod_converse(p, bytes_per_row as int, y as int, k as int);
                assert(bytes_per_row <= bytes_per_row * height) by (nonlinear_arith)
                    requires
                        height >= 1,
                ;
            }
            let x: usize = 8 * k;
            let byte: u8 = pack_dots(
                column_dot_at(column_data, width, height, x, y),
                column_dot_at(column_data, width, height, x + 1, y),
                column_dot_at(column_data, width, height, x + 2, y),
                column_dot_at(column_data, width, height, x + 3, y),
                column_dot_at(column_data, width, height, x + 4, y),
                column_dot_at(column_data, width, height, x + 5, y),
                column_dot_at(column_data, width, height, x + 6, y),
                column_dot_at(column_data, width, height, x + 7, y),
            );
            raster_data.push(byte);
            proof {
                assert(byte == rows[p]);
                assert(raster_data@ =~= rows.take(p + 1));
            }
            k += 1;
        }
        y += 1;
    }
    proof {
        assert(height * bytes_per_row == bytes_per_row * height) by (nonlinear_arith);
        assert(rows.take(rows.len() as int) =~= rows);
    }
    raster_data
}

/// The gray of a printed dot: paler at the three lowest densities.
pub open spec fn ink_gray(density: u8) -> u8 {
    if density == 0 {
        180
    } else if density == 1 {
        130
    } else if density == 2 {
        80
    } else {
        0
    }
}

/// The gray of paper.
pub const PAPER_GRAY: u8 = 255;

/// The grays of an image, row by row.
pub open spec fn image_grays(
    width: int,
    height: int,
    data: Seq<u8>,
    density: u8,
    bytes_per_line: int,
) -> Seq<u8> {
    Seq::new(
        (width * height) as nat,
        |p: int|
            if raster_dot(data, bytes_per_line, p % width, p / width) {
                ink_gray(density)
            } else {
                PAPER_GRAY
            },
    )
}

fn dot_at(data: &[u8], bytes_per_line: usize, x: usize, y: usize) -> (r: bool)
    ensures
        r == raster_dot(data@, bytes_per_line as int, x as int, y as int),
{
    let n: usize = data.len();
    match product(y, bytes_per_line) {
        Some(row) => {
            if x / 8 < n && row < n - x / 8 {
                (data[row + x / 8] >> ((7 - x % 8) as u8)) & 1 == 1
            } else {
                false
            }
        },
        None => false,
    }
}

/// The dots of an image as grays, or `None` where they do not fit in memory.
/// Rows are `bytes_per_line` bytes apart, and what the data does not cover is
/// white.
pub fn raster_grays(
    width: usize,
    height: usize,
    data: &[u8],
    density: u8,
    bytes_per_line: usize,
) -> (r: Option<Vec<u8>>)
    ensures
        match r {
            Some(grays) => {
                &&& fits(width as int, height as int)
                &&& grays@ == image_grays(
                    width as int,
                    height as int,
                    data@,
                    density,
                    bytes_per_line as int,
                )
            },
            None => !fits(width as int, height as int),
        },
{
    let total: usize = match product(width, height) {
        Some(area) => if area <= usize::MAX / 8 {
            area
        } else {
            return None;
        },
        None => {
            return None;
        },
    };
    let ink: u8 = match density {
        0 => 180,
        1 => 130,
        2 => 80,
        _ => 0,
    };
    let ghost goal = image_grays(
        width as int,
        height as int,
        data@,
        density,
        bytes_per_line as int,
    );
    let mut grays: Vec<u8> = Vec::new();
    let mut p: usize = 0;
    while p < total
        invariant
            p <= total,
            total == width * height,
            ink == ink_gray(density),
            goal == image_grays(
                width as int,
                height as int,
                data@,
                density,
                bytes_per_line as int,
            ),
            goal.len() == total,
            grays@ == goal.take(p as int),
        decreases total - p,
    {
        proof {
            lemma_cell(width as int, height as int, p as int);
        }
        let gray: u8 = if dot_at(data, bytes_per_line, p % width, p / width) {
            ink
        } else {
            PAPER_GRAY
        };
        grays.push(gray);
        p += 1;
        assert(grays@ =~= goal.take(p as int));
    }
    assert(goal.take(goal.len() as int) =~= goal);
    Some(grays)
}

/// A dot of an image has the gray of its bit.
pub proof fn image_gray_at(
    width: int,
    height: int,
    data: Seq<u8>,
    density: u8,
    bytes_per_line: int,
    x: int,
    y: int,
)
    requires
        0 <= x < width,
        0 <= y < height,
    ensures
        0 <= y * width + x < image_grays(width, height, data, density, bytes_per_line).len(),
        image_grays(width, height, data, density, bytes_per_line)[y * width + x] == (
        if raster_dot(data, bytes_per_line, x, y) {
            ink_gray(density)
        } else {
            PAPER_GRAY
        }),
{
    let p = y * width + x;
    assert(0 <= p < width * height) by (nonlinear_arith)
        requires
            p == y * width + x,
            0 <= x < width,
            0 <= y < height,
    ;
    lemma_fundamental_div_mod_converse(p, width, y, x);
}

} // verus!
