//! Where each command of the byte stream ends.
//!
//! Every function here looks at the bytes from the first byte of a command on,
//! so `s[0]` is the control byte that opens it. How far a command reaches
//! depends on the bytes alone, never on the state of the printer.

use vstd::prelude::*;
use crate::codes::{
    DC2, DC2_DENSITY, DC4, DLE, ENQ, EOT, ESC, ESC_BIT_IMAGE, ESC_DEFAULT_SPACING,
    ESC_DEFINE_CHARS, ESC_DRAWER, ESC_EXTENDED, ESC_HOME, ESC_IMAGE_K, ESC_IMAGE_L, ESC_IMAGE_Y,
    ESC_IMAGE_Z, ESC_INITIALIZE, ESC_MOVE, ESC_OLD_CUT, ESC_PAGE_AREA, ESC_POSITION, ESC_SENSOR,
    ESC_TAB_STOPS, FS, FS_CODE_SYSTEM, FS_DEFINE_NV, FS_EXTENDED, FS_MEMORY, FS_PRINT_MODE,
    FS_PRINT_NV, FS_SPACING, FS_UNDERLINE, FS_WIDE_OFF, FS_WIDE_ON, GS, GS_8_GRAPHICS,
    GS_AREA_WIDTH, GS_BARCODE, GS_EXTENDED, GS_EXTENDED_LONG, GS_LEFT_MARGIN, GS_PAREN_SYMBOL,
    GS_RASTER, GS_VERTICAL, SYMBOL_DATAMATRIX, SYMBOL_PDF417, SYMBOL_QR, ceil_div, is_text, le16,
    le32, min_of, min_usize, minus, minus_usize, opens_command, read_le16, read_le32,
};

verus! {

/// How far a command reaches.
pub enum Span {
    /// The command takes this many bytes.
    Ends(int),
    /// More bytes must arrive before the command can be carried out.
    Incomplete,
    /// The command claims bytes that are not there, and is not one that waits
    /// for them.
    Overrun,
}

/// How far a command reaches, as a machine value.
#[derive(Debug, Clone, Copy, PartialEq, Eq, Structural)]
pub enum Extent {
    Ends(usize),
    Incomplete,
    Overrun,
}

impl View for Extent {
    type V = Span;

    open spec fn view(&self) -> Span {
        match *self {
            Extent::Ends(e) => Span::Ends(e as int),
            Extent::Incomplete => Span::Incomplete,
            Extent::Overrun => Span::Overrun,
        }
    }
}

/// Widest column image, and widest and tallest raster image, in dots.
pub const MAX_DOTS: usize = 10_000;

/// Most data bytes that a raster image may hold.
pub const MAX_IMAGE_BYTES: usize = 5_000_000;

/// Most bytes that a `GS 8` command other than `GS 8 L` skips.
pub const MAX_SKIP: usize = 1_000_000;

/// Longest declared length of a `GS 8 L` command that is printed.
pub const MAX_GRAPHICS_BYTES: usize = 100_000;

/// Most data bytes that `GS ( k` can store for a symbol.
pub const MAX_SYMBOL_BYTES: usize = 0xFFFF;

/// The end of `count` parameter bytes at `at`: they are taken all together, or
/// not at all where some are missing.
pub open spec fn optional(s: Seq<u8>, at: int, count: int) -> int {
    if at + count <= s.len() {
        at + count
    } else {
        at
    }
}

/// A command that must end inside the bytes at hand.
pub open spec fn within(s: Seq<u8>, end: int) -> Span {
    if end <= s.len() {
        Span::Ends(end)
    } else {
        Span::Overrun
    }
}

/// A command that waits until the bytes up to `end` are there.
pub open spec fn awaited(s: Seq<u8>, end: int) -> Span {
    if end <= s.len() {
        Span::Ends(end)
    } else {
        Span::Incomplete
    }
}

/// Position of the first NUL at or after `k`, or the end of the bytes.
pub open spec fn nul_at(s: Seq<u8>, k: int) -> int
    decreases s.len() - k,
{
    if k >= s.len() {
        s.len() as int
    } else if s[k] == 0 {
        k
    } else {
        nul_at(s, k + 1)
    }
}

/// The position behind the first NUL at or after `k`, or the end of the bytes.
pub open spec fn behind_nul(s: Seq<u8>, k: int) -> int {
    min_of(nul_at(s, k) + 1, s.len() as int)
}

/// Dots in one column of `ESC * m`.
pub open spec fn column_height(m: u8) -> int {
    if m == 32 || m == 33 {
        24
    } else {
        8
    }
}

/// `ESC * m nL nH d1...dk` has a width that is printed.
pub open spec fn column_image_valid(s: Seq<u8>) -> bool {
    0 < le16(s, 3) <= MAX_DOTS
}

/// `ESC * m nL nH d1...dk`: a column image.
pub open spec fn column_image_span(s: Seq<u8>) -> Span {
    if s.len() < 5 {
        Span::Incomplete
    } else if !column_image_valid(s) {
        Span::Ends(5)
    } else {
        awaited(s, 5 + le16(s, 3) * (column_height(s[2]) / 8))
    }
}

/// `ESC K/L/Y/Z nL nH d1...dk`: image data is skipped only where all is there.
pub open spec fn skipped_image_end(s: Seq<u8>, bytes_per_column: int) -> int {
    if s.len() < 4 {
        2
    } else {
        optional(s, 4, le16(s, 2) * bytes_per_column)
    }
}

/// `ESC & y c1 c2 d1...dk`: bytes of the character definitions.
pub open spec fn char_definition_bytes(y: int, c1: int, c2: int) -> int {
    if c2 >= c1 {
        (c2 - c1 + 1) * (y * 2)
    } else {
        0
    }
}

/// An ESC command.
pub open spec fn esc_span(s: Seq<u8>) -> Span {
    match s[1] {
        ESC_INITIALIZE | ESC_OLD_CUT | ESC_DEFAULT_SPACING | ESC_HOME => Span::Ends(2),
        ESC_POSITION | ESC_MOVE | ESC_SENSOR => Span::Ends(optional(s, 2, 2)),
        ESC_DRAWER => Span::Ends(optional(s, 2, 3)),
        ESC_IMAGE_K | ESC_IMAGE_L => Span::Ends(skipped_image_end(s, 1)),
        ESC_IMAGE_Y | ESC_IMAGE_Z => Span::Ends(skipped_image_end(s, 2)),
        ESC_TAB_STOPS => Span::Ends(behind_nul(s, 2)),
        ESC_PAGE_AREA => Span::Ends(
            if s.len() >= 10 {
                10
            } else {
                optional(s, 2, 1)
            },
        ),
        ESC_EXTENDED => if s.len() >= 5 {
            within(s, 5 + le16(s, 3))
        } else {
            Span::Ends(2)
        },
        ESC_DEFINE_CHARS => if s.len() >= 5 {
            within(s, 5 + char_definition_bytes(s[2] as int, s[3] as int, s[4] as int))
        } else {
            Span::Ends(2)
        },
        ESC_BIT_IMAGE => column_image_span(s),
        _ => Span::Ends(optional(s, 2, 1)),
    }
}

/// Data bytes of `GS v 0 m xL xH yL yH d1...dk`.
pub open spec fn raster_bytes(s: Seq<u8>) -> int {
    le16(s, 4) * le16(s, 6)
}

/// `GS v` announces an image within the limits, and the image is not empty.
pub open spec fn raster_prints(s: Seq<u8>) -> bool {
    &&& 0 < le16(s, 4)
    &&& 0 < le16(s, 6)
    &&& le16(s, 4) * 8 <= MAX_DOTS
    &&& le16(s, 6) <= MAX_DOTS
    &&& raster_bytes(s) <= MAX_IMAGE_BYTES
}

/// `GS v 0 m xL xH yL yH d1...dk`: a raster image. One that is too wide or too
/// tall is skipped, and one whose data cannot be skipped waits forever.
pub open spec fn raster_span(s: Seq<u8>) -> Span {
    if s.len() < 8 {
        Span::Incomplete
    } else if le16(s, 4) == 0 || le16(s, 6) == 0 {
        Span::Ends(8)
    } else if le16(s, 4) * 8 > MAX_DOTS || le16(s, 6) > MAX_DOTS {
        if raster_bytes(s) > MAX_IMAGE_BYTES {
            Span::Incomplete
        } else {
            awaited(s, 8 + raster_bytes(s))
        }
    } else if raster_bytes(s) > MAX_IMAGE_BYTES {
        Span::Ends(8)
    } else {
        awaited(s, 8 + raster_bytes(s))
    }
}

/// Functions of `GS 8 L` that carry an image.
pub open spec fn graphics_stores(s: Seq<u8>) -> bool {
    s[7] == 48 || s[7] == 112
}

/// Data bytes of the image of `GS 8 L`.
pub open spec fn graphics_bytes(s: Seq<u8>) -> int {
    ceil_div(le16(s, 13), 8) * le16(s, 15)
}

/// `GS 8 L` holds an image within the limits.
pub open spec fn graphics_prints(s: Seq<u8>) -> bool {
    &&& graphics_stores(s)
    &&& le32(s, 3) <= MAX_GRAPHICS_BYTES
    &&& graphics_bytes(s) <= MAX_IMAGE_BYTES
}

/// `GS 8 L p1 p2 p3 p4 m fn a bx by c xL xH yL yH d1...dk`: raster graphics.
/// The declared length counts the six bytes from `m` to `c`, and all bytes behind
/// them. What is not printed is skipped by that length.
pub open spec fn graphics_span(s: Seq<u8>) -> Span {
    if s.len() < 13 {
        Span::Incomplete
    } else if !graphics_stores(s) {
        Span::Ends(13 + min_of(minus(le32(s, 3), 6), s.len() - 13))
    } else if s.len() < 17 {
        Span::Incomplete
    } else if graphics_prints(s) {
        awaited(s, 17 + graphics_bytes(s))
    } else {
        awaited(s, 13 + minus(le32(s, 3), 6))
    }
}

/// `GS 8 fn p1 p2 p3 p4 d1...dk`.
pub open spec fn extended_long_span(s: Seq<u8>) -> Span {
    if s.len() < 3 {
        Span::Ends(2)
    } else if s[2] == GS_8_GRAPHICS {
        graphics_span(s)
    } else if s.len() < 7 {
        Span::Incomplete
    } else {
        awaited(s, 7 + min_of(le32(s, 3), MAX_SKIP as int))
    }
}

/// Barcode systems whose data ends with NUL.
pub open spec fn nul_terminated_system(m: u8) -> bool {
    m < 6
}

/// Barcode systems whose data follows a length byte.
pub open spec fn counted_system(m: u8) -> bool {
    65 <= m <= 73
}

/// Where the data of `GS k m ...` starts.
pub open spec fn barcode_start(s: Seq<u8>) -> int {
    if nul_terminated_system(s[2]) {
        3
    } else {
        4
    }
}

/// Where the data of `GS k m ...` stops.
pub open spec fn barcode_stop(s: Seq<u8>) -> int {
    if nul_terminated_system(s[2]) {
        nul_at(s, 3)
    } else {
        min_of(4 + s[3], s.len() as int)
    }
}

/// `GS k m d1...dk NUL` or `GS k m n d1...dn`: a barcode.
pub open spec fn barcode_span(s: Seq<u8>) -> Span {
    if s.len() < 3 {
        Span::Ends(2)
    } else if nul_terminated_system(s[2]) {
        Span::Ends(behind_nul(s, 3))
    } else if counted_system(s[2]) && s.len() > 3 {
        Span::Ends(barcode_stop(s))
    } else {
        Span::Ends(3)
    }
}

/// Functions of `GS ( k` that store symbol data.
pub open spec fn symbol_stores(family: u8, function: u8) -> bool {
    &&& function == 80
    &&& family == SYMBOL_PDF417 || family == SYMBOL_QR || family == SYMBOL_DATAMATRIX
}

/// Functions of `GS ( k` with a single optional parameter byte.
pub open spec fn symbol_sets(family: u8, function: u8) -> bool {
    ||| family == SYMBOL_PDF417 && 65 <= function <= 70
    ||| family == SYMBOL_QR && (function == 67 || function == 69)
    ||| family == SYMBOL_DATAMATRIX && (function == 65 || function == 67)
}

/// Bytes of symbol data that `GS ( k` stores; the declared length counts the
/// family, the function and one mode byte.
pub open spec fn stored_bytes(s: Seq<u8>) -> int {
    minus(le16(s, 3), 3)
}

/// `GS ( k pL pH cn fn ...`: two-dimensional symbols.
pub open spec fn symbol_span(s: Seq<u8>) -> Span {
    if s.len() < 7 {
        Span::Incomplete
    } else if symbol_stores(s[5], s[6]) {
        awaited(s, 8 + stored_bytes(s))
    } else if symbol_sets(s[5], s[6]) {
        Span::Ends(optional(s, 7, 1))
    } else {
        Span::Ends(7 + min_of(minus(le16(s, 3), 2), s.len() - 7))
    }
}

/// `GS ( fn pL pH ...`.
pub open spec fn extended_span(s: Seq<u8>) -> Span {
    if s.len() < 3 {
        Span::Ends(2)
    } else if s[2] == GS_PAREN_SYMBOL {
        symbol_span(s)
    } else if s.len() >= 5 {
        within(s, 5 + le16(s, 3))
    } else {
        Span::Ends(2)
    }
}

/// A GS command.
pub open spec fn gs_span(s: Seq<u8>) -> Span {
    match s[1] {
        GS_EXTENDED_LONG => extended_long_span(s),
        GS_RASTER => if s.len() < 3 {
            Span::Ends(2)
        } else {
            raster_span(s)
        },
        GS_LEFT_MARGIN | GS_AREA_WIDTH | GS_VERTICAL => Span::Ends(optional(s, 2, 2)),
        GS_BARCODE => barcode_span(s),
        GS_EXTENDED => extended_span(s),
        _ => Span::Ends(optional(s, 2, 1)),
    }
}

/// Data bytes of the NV image whose header is at `pos`.
pub open spec fn nv_bytes(s: Seq<u8>, pos: int) -> int {
    le16(s, pos) * le16(s, pos + 2)
}

/// Where the NV image whose header is at `pos` ends, as far as its bytes are
/// there.
pub open spec fn nv_image_end(s: Seq<u8>, pos: int) -> int {
    min_of(pos + 4 + nv_bytes(s, pos), s.len() as int)
}

/// Where `count` NV images from `pos` on end. Reading stops early where a
/// header is cut short.
pub open spec fn nv_end(s: Seq<u8>, pos: int, count: nat) -> int
    decreases count,
{
    if count == 0 || pos + 4 > s.len() {
        pos
    } else {
        nv_end(s, nv_image_end(s, pos), (count - 1) as nat)
    }
}

/// A byte that an unknown FS command takes as its parameter.
pub open spec fn fs_parameter(b: u8) -> bool {
    b < 0x1B || b > 0x7E
}

/// An FS command.
pub open spec fn fs_span(s: Seq<u8>) -> Span {
    match s[1] {
        FS_WIDE_OFF => Span::Ends(
            if s.len() > 2 && !opens_command(s[2]) {
                3
            } else {
                2
            },
        ),
        FS_PRINT_NV => Span::Ends(optional(s, 2, 2)),
        FS_DEFINE_NV => Span::Ends(
            if s.len() > 2 {
                nv_end(s, 3, s[2] as nat)
            } else {
                2
            },
        ),
        FS_EXTENDED => if s.len() >= 6 {
            within(s, 5 + min_of(le16(s, 3), s.len() - 2))
        } else {
            Span::Ends(2)
        },
        FS_CODE_SYSTEM | FS_MEMORY | FS_PRINT_MODE | FS_WIDE_ON | FS_SPACING | FS_UNDERLINE =>
            Span::Ends(optional(s, 2, 1)),
        _ => Span::Ends(
            if s.len() > 2 && fs_parameter(s[2]) {
                if s.len() > 3 && s[2] > 0x7F && fs_parameter(s[3]) {
                    4
                } else {
                    3
                }
            } else {
                2
            },
        ),
    }
}

/// A DLE command: real-time status, or a real-time request.
pub open spec fn dle_span(s: Seq<u8>) -> Span {
    if s[1] == EOT || s[1] == ENQ {
        Span::Ends(optional(s, 2, 1))
    } else if s[1] == DC4 {
        Span::Ends(optional(s, 2, 2))
    } else {
        Span::Ends(2)
    }
}

/// `DC2 # n`, or DC2 alone.
pub open spec fn dc2_span(s: Seq<u8>) -> Span {
    if s.len() > 1 && s[1] == DC2_DENSITY {
        Span::Ends(optional(s, 2, 1))
    } else {
        Span::Ends(1)
    }
}

/// The command that the bytes `s` start with. The last byte at hand is not
/// taken as text, nor as the opening of a command, until another one follows.
#[verifier::opaque]
pub open spec fn span(s: Seq<u8>) -> Span {
    if opens_command(s[0]) {
        if s.len() < 2 {
            Span::Incomplete
        } else if s[0] == ESC {
            esc_span(s)
        } else if s[0] == GS {
            gs_span(s)
        } else if s[0] == FS {
            fs_span(s)
        } else {
            dle_span(s)
        }
    } else if s[0] == DC2 {
        dc2_span(s)
    } else if is_text(s[0]) && s.len() == 1 {
        Span::Incomplete
    } else {
        Span::Ends(1)
    }
}

pub(crate) proof fn lemma_nul_at(s: Seq<u8>, k: int)
    requires
        0 <= k <= s.len(),
    ensures
        k <= nul_at(s, k) <= s.len(),
        nul_at(s, k) < s.len() ==> s[nul_at(s, k)] == 0,
        forall|j: int| k <= j < nul_at(s, k) ==> s[j] != 0,
    decreases s.len() - k,
{
    if k < s.len() && s[k] != 0 {
        lemma_nul_at(s, k + 1);
    }
}

pub(crate) proof fn lemma_product16(x: int, y: int)
    requires
        0 <= x <= 0xFFFF,
        0 <= y <= 0xFFFF,
    ensures
        0 <= x * y <= 0xFFFE_0001,
{
    assert(0 <= x * y <= 0xFFFE_0001) by (nonlinear_arith)
        requires
            0 <= x <= 0xFFFF,
            0 <= y <= 0xFFFF,
    ;
}

pub(crate) proof fn lemma_nv_end(s: Seq<u8>, pos: int, count: nat)
    requires
        0 <= pos <= s.len(),
    ensures
        pos <= nv_end(s, pos, count) <= s.len(),
    decreases count,
{
    if count > 0 && pos + 4 <= s.len() {
        lemma_product16(le16(s, pos), le16(s, pos + 2));
        lemma_nv_end(s, nv_image_end(s, pos), (count - 1) as nat);
    }
}

pub(crate) proof fn esc_span_bounds(s: Seq<u8>)
    requires
        s.len() >= 2,
    ensures
        esc_span(s) matches Span::Ends(e) ==> 2 <= e <= s.len(),
{
    lemma_nul_at(s, 2);
    if s.len() >= 4 {
        lemma_product16(le16(s, 2), 1);
    }
    if s.len() >= 5 {
        lemma_product16(le16(s, 3), column_height(s[2]) / 8);
        if s[4] >= s[3] {
            lemma_product16(s[4] - s[3] + 1, s[2] * 2);
        }
    }
}

pub(crate) proof fn gs_span_bounds(s: Seq<u8>)
    requires
        s.len() >= 2,
    ensures
        gs_span(s) matches Span::Ends(e) ==> 2 <= e <= s.len(),
{
    if s.len() >= 3 {
        lemma_nul_at(s, 3);
    }
    if s.len() >= 8 {
        lemma_product16(le16(s, 4), le16(s, 6));
    }
    if s.len() >= 17 {
        lemma_product16(ceil_div(le16(s, 13), 8), le16(s, 15));
    }
}

pub(crate) proof fn fs_span_bounds(s: Seq<u8>)
    requires
        s.len() >= 2,
    ensures
        fs_span(s) matches Span::Ends(e) ==> 2 <= e <= s.len(),
{
    if s.len() >= 3 {
        lemma_nv_end(s, 3, s[2] as nat);
    }
}

/// Every command takes at least one byte, and none that is not there.
pub proof fn span_bounds(s: Seq<u8>)
    requires
        s.len() > 0,
    ensures
        span(s) matches Span::Ends(e) ==> 1 <= e <= s.len(),
{
    reveal(span);
    if s.len() >= 2 {
        esc_span_bounds(s);
        gs_span_bounds(s);
        fs_span_bounds(s);
    }
}

/// No command of the stream overruns it.
pub open spec fn well_framed(s: Seq<u8>) -> bool
    decreases s.len(),
{
    if s.len() == 0 {
        true
    } else {
        proof {
            span_bounds(s);
        }
        match span(s) {
            Span::Ends(e) => well_framed(s.skip(e)),
            Span::Incomplete => true,
            Span::Overrun => false,
        }
    }
}

/// What is left of the stream when every command that is complete is taken.
pub open spec fn leftover(s: Seq<u8>) -> Seq<u8>
    decreases s.len(),
{
    if s.len() == 0 {
        s
    } else {
        proof {
            span_bounds(s);
        }
        match span(s) {
            Span::Ends(e) => leftover(s.skip(e)),
            _ => s,
        }
    }
}

/// Where the first command begins that overruns the stream, or the end of the
/// stream where none does.
pub open spec fn overrun_at(s: Seq<u8>) -> int
    decreases s.len(),
{
    if s.len() == 0 {
        0
    } else {
        proof {
            span_bounds(s);
        }
        match span(s) {
            Span::Ends(e) => e + overrun_at(s.skip(e)),
            Span::Incomplete => s.len() as int,
            Span::Overrun => 0,
        }
    }
}

/// A stream is well framed exactly where no command overruns it.
pub proof fn well_framed_to_the_end(s: Seq<u8>)
    ensures
        0 <= overrun_at(s) <= s.len(),
        well_framed(s) == (overrun_at(s) == s.len()),
    decreases s.len(),
{
    if s.len() > 0 {
        span_bounds(s);
        if let Span::Ends(e) = span(s) {
            well_framed_to_the_end(s.skip(e));
        }
    }
}

fn optional_end(s: &[u8], at: usize, count: usize) -> (r: usize)
    requires
        at <= 0xFF,
        count <= 0xFF_FFFF,
    ensures
        r == optional(s@, at as int, count as int),
{
    if at + count <= s.len() {
        at + count
    } else {
        at
    }
}

fn within_extent(s: &[u8], end: usize) -> (r: Extent)
    ensures
        r@ == within(s@, end as int),
{
    if end <= s.len() {
        Extent::Ends(end)
    } else {
        Extent::Overrun
    }
}

/// The extent of a command whose header of `header` bytes is there, and which
/// waits for `count` bytes behind it.
fn awaited_extent(s: &[u8], header: usize, count: usize) -> (r: Extent)
    requires
        header <= s.len(),
    ensures
        r@ == awaited(s@, header + count),
{
    if count <= s.len() - header {
        Extent::Ends(header + count)
    } else {
        Extent::Incomplete
    }
}

pub(crate) fn find_nul(s: &[u8], from: usize) -> (r: usize)
    requires
        from <= s.len(),
    ensures
        r == nul_at(s@, from as int),
        from <= r <= s.len(),
{
    let mut k: usize = from;
    while k < s.len() && s[k] != 0
        invariant
            from <= k <= s.len(),
            nul_at(s@, k as int) == nul_at(s@, from as int),
        decreases s.len() - k,
    {
        k += 1;
    }
    k
}

fn nul_end(s: &[u8], from: usize) -> (r: usize)
    requires
        from <= s.len(),
    ensures
        r == behind_nul(s@, from as int),
{
    let k: usize = find_nul(s, from);
    if k < s.len() {
        k + 1
    } else {
        k
    }
}

pub(crate) fn dots_per_column(m: u8) -> (r: usize)
    ensures
        r == column_height(m),
{
    match m {
        0 | 1 => 8,
        32 | 33 => 24,
        _ => 8,
    }
}

pub fn column_image_extent(s: &[u8]) -> (r: Extent)
    requires
        s.len() >= 2,
    ensures
        r@ == column_image_span(s@),
{
    if s.len() < 5 {
        return Extent::Incomplete;
    }
    let width: usize = read_le16(s, 3);
    let height: usize = dots_per_column(s[2]);
    if width == 0 || width > MAX_DOTS {
        return Extent::Ends(5);
    }
    proof {
        lemma_product16(width as int, height as int / 8);
    }
    awaited_extent(s, 5, width * (height / 8))
}

fn skipped_image_extent(s: &[u8], bytes_per_column: usize) -> (r: Extent)
    requires
        s.len() >= 2,
        bytes_per_column <= 2,
    ensures
        r@ == Span::Ends(skipped_image_end(s@, bytes_per_column as int)),
{
    if s.len() < 4 {
        return Extent::Ends(2);
    }
    let width: usize = read_le16(s, 2);
    assert(width * bytes_per_column <= 0x1_FFFE) by (nonlinear_arith)
        requires
            width <= 0xFFFF,
            bytes_per_column <= 2,
    ;
    Extent::Ends(optional_end(s, 4, width * bytes_per_column))
}

fn define_chars_extent(s: &[u8]) -> (r: Extent)
    requires
        s.len() >= 5,
    ensures
        r@ == within(s@, 5 + char_definition_bytes(s@[2] as int, s@[3] as int, s@[4] as int)),
{
    let y: usize = s[2] as usize;
    let first: usize = s[3] as usize;
    let last: usize = s[4] as usize;
    let chars: usize = if last >= first {
        last - first + 1
    } else {
        0
    };
    let bytes_per_char: usize = y * 2;
    proof {
        lemma_product16(chars as int, bytes_per_char as int);
        assert(chars * bytes_per_char <= 256 * 510) by (nonlinear_arith)
            requires
                chars <= 256,
                bytes_per_char <= 510,
        ;
    }
    within_extent(s, 5 + chars * bytes_per_char)
}

pub fn esc_extent(s: &[u8]) -> (r: Extent)
    requires
        s.len() >= 2,
    ensures
        r@ == esc_span(s@),
{
    match s[1] {
        ESC_INITIALIZE | ESC_OLD_CUT | ESC_DEFAULT_SPACING | ESC_HOME => Extent::Ends(2),
        ESC_POSITION | ESC_MOVE | ESC_SENSOR => Extent::Ends(optional_end(s, 2, 2)),
        ESC_DRAWER => Extent::Ends(optional_end(s, 2, 3)),
        ESC_IMAGE_K | ESC_IMAGE_L => skipped_image_extent(s, 1),
        ESC_IMAGE_Y | ESC_IMAGE_Z => skipped_image_extent(s, 2),
        ESC_TAB_STOPS => Extent::Ends(nul_end(s, 2)),
        ESC_PAGE_AREA => if s.len() >= 10 {
            Extent::Ends(10)
        } else {
            Extent::Ends(optional_end(s, 2, 1))
        },
        ESC_EXTENDED => if s.len() >= 5 {
            within_extent(s, 5 + read_le16(s, 3))
        } else {
            Extent::Ends(2)
        },
        ESC_DEFINE_CHARS => if s.len() >= 5 {
            define_chars_extent(s)
        } else {
            Extent::Ends(2)
        },
        ESC_BIT_IMAGE => column_image_extent(s),
        _ => Extent::Ends(optional_end(s, 2, 1)),
    }
}

pub fn raster_extent(s: &[u8]) -> (r: Extent)
    requires
        s.len() >= 3,
    ensures
        r@ == raster_span(s@),
{
    if s.len() < 8 {
        return Extent::Incomplete;
    }
    let width_bytes: usize = read_le16(s, 4);
    let height: usize = read_le16(s, 6);
    proof {
        lemma_product16(width_bytes as int, height as int);
    }
    let total: usize = width_bytes * height;
    if width_bytes == 0 || height == 0 {
        Extent::Ends(8)
    } else if width_bytes * 8 > MAX_DOTS || height > MAX_DOTS {
        if total > MAX_IMAGE_BYTES {
            Extent::Incomplete
        } else {
            awaited_extent(s, 8, total)
        }
    } else if total > MAX_IMAGE_BYTES {
        Extent::Ends(8)
    } else {
        awaited_extent(s, 8, total)
    }
}

pub fn graphics_extent(s: &[u8]) -> (r: Extent)
    requires
        s.len() >= 3,
    ensures
        r@ == graphics_span(s@),
{
    if s.len() < 13 {
        return Extent::Incomplete;
    }
    let length: usize = read_le32(s, 3);
    let skip: usize = minus_usize(length, 6);
    if s[7] == 48 || s[7] == 112 {
        if s.len() < 17 {
            return Extent::Incomplete;
        }
        let width: usize = read_le16(s, 13);
        let height: usize = read_le16(s, 15);
        let width_bytes: usize = (width + 7) / 8;
        proof {
            lemma_product16(width_bytes as int, height as int);
        }
        let total: usize = width_bytes * height;
        if length > MAX_GRAPHICS_BYTES || total > MAX_IMAGE_BYTES {
            awaited_extent(s, 13, skip)
        } else {
            awaited_extent(s, 17, total)
        }
    } else {
        Extent::Ends(13 + min_usize(skip, s.len() - 13))
    }
}

fn extended_long_extent(s: &[u8]) -> (r: Extent)
    requires
        s.len() >= 2,
    ensures
        r@ == extended_long_span(s@),
{
    if s.len() < 3 {
        Extent::Ends(2)
    } else if s[2] == GS_8_GRAPHICS {
        graphics_extent(s)
    } else if s.len() < 7 {
        Extent::Incomplete
    } else {
        awaited_extent(s, 7, min_usize(read_le32(s, 3), MAX_SKIP))
    }
}

fn barcode_extent(s: &[u8]) -> (r: Extent)
    requires
        s.len() >= 2,
    ensures
        r@ == barcode_span(s@),
{
    if s.len() < 3 {
        Extent::Ends(2)
    } else if s[2] < 6 {
        Extent::Ends(nul_end(s, 3))
    } else if 65 <= s[2] && s[2] <= 73 && s.len() > 3 {
        Extent::Ends(min_usize(4 + s[3] as usize, s.len()))
    } else {
        Extent::Ends(3)
    }
}

pub fn symbol_extent(s: &[u8]) -> (r: Extent)
    requires
        s.len() >= 3,
    ensures
        r@ == symbol_span(s@),
{
    if s.len() < 7 {
        return Extent::Incomplete;
    }
    let length: usize = read_le16(s, 3);
    let family: u8 = s[5];
    let function: u8 = s[6];
    let known: bool = family == SYMBOL_PDF417 || family == SYMBOL_QR || family
        == SYMBOL_DATAMATRIX;
    if known && function == 80 {
        if s.len() < 8 {
            Extent::Incomplete
        } else {
            awaited_extent(s, 8, minus_usize(length, 3))
        }
    } else if (family == SYMBOL_PDF417 && 65 <= function && function <= 70) || (family == SYMBOL_QR
        && (function == 67 || function == 69)) || (family == SYMBOL_DATAMATRIX && (function == 65
        || function == 67)) {
        Extent::Ends(optional_end(s, 7, 1))
    } else {
        Extent::Ends(7 + min_usize(minus_usize(length, 2), s.len() - 7))
    }
}

fn extended_extent(s: &[u8]) -> (r: Extent)
    requires
        s.len() >= 2,
    ensures
        r@ == extended_span(s@),
{
    if s.len() < 3 {
        Extent::Ends(2)
    } else if s[2] == GS_PAREN_SYMBOL {
        symbol_extent(s)
    } else if s.len() >= 5 {
        within_extent(s, 5 + read_le16(s, 3))
    } else {
        Extent::Ends(2)
    }
}

pub fn gs_extent(s: &[u8]) -> (r: Extent)
    requires
        s.len() >= 2,
    ensures
        r@ == gs_span(s@),
{
    match s[1] {
        GS_EXTENDED_LONG => extended_long_extent(s),
        GS_RASTER => if s.len() < 3 {
            Extent::Ends(2)
        } else {
            raster_extent(s)
        },
        GS_LEFT_MARGIN | GS_AREA_WIDTH | GS_VERTICAL => Extent::Ends(optional_end(s, 2, 2)),
        GS_BARCODE => barcode_extent(s),
        GS_EXTENDED => extended_extent(s),
        _ => Extent::Ends(optional_end(s, 2, 1)),
    }
}

/// Where the NV image whose header is at `pos` ends.
pub(crate) fn nv_image_stop(s: &[u8], pos: usize) -> (r: usize)
    requires
        pos + 4 <= s.len(),
    ensures
        r == nv_image_end(s@, pos as int),
        pos + 4 <= r <= s.len(),
{
    let width_bytes: usize = read_le16(s, pos);
    let height: usize = read_le16(s, pos + 2);
    proof {
        lemma_product16(width_bytes as int, height as int);
    }
    pos + 4 + min_usize(width_bytes * height, s.len() - pos - 4)
}

fn nv_stop(s: &[u8]) -> (r: usize)
    requires
        s.len() >= 3,
    ensures
        r == nv_end(s@, 3, s@[2] as nat),
{
    let mut pos: usize = 3;
    let mut left: u8 = s[2];
    while left > 0 && s.len() - pos >= 4
        invariant
            3 <= pos <= s.len(),
            nv_end(s@, pos as int, left as nat) == nv_end(s@, 3, s@[2] as nat),
        decreases left,
    {
        pos = nv_image_stop(s, pos);
        left -= 1;
    }
    pos
}

pub fn fs_extent(s: &[u8]) -> (r: Extent)
    requires
        s.len() >= 2,
    ensures
        r@ == fs_span(s@),
{
    match s[1] {
        FS_WIDE_OFF => if s.len() > 2 && s[2] != ESC && s[2] != GS && s[2] != FS && s[2] != DLE {
            Extent::Ends(3)
        } else {
            Extent::Ends(2)
        },
        FS_PRINT_NV => Extent::Ends(optional_end(s, 2, 2)),
        FS_DEFINE_NV => if s.len() > 2 {
            Extent::Ends(nv_stop(s))
        } else {
            Extent::Ends(2)
        },
        FS_EXTENDED => if s.len() >= 6 {
            within_extent(s, 5 + min_usize(read_le16(s, 3), s.len() - 2))
        } else {
            Extent::Ends(2)
        },
        FS_CODE_SYSTEM | FS_MEMORY | FS_PRINT_MODE | FS_WIDE_ON | FS_SPACING | FS_UNDERLINE =>
            Extent::Ends(optional_end(s, 2, 1)),
        _ => if s.len() > 2 && (s[2] < 0x1B || s[2] > 0x7E) {
            if s.len() > 3 && s[2] > 0x7F && (s[3] < 0x1B || s[3] > 0x7E) {
                Extent::Ends(4)
            } else {
                Extent::Ends(3)
            }
        } else {
            Extent::Ends(2)
        },
    }
}

pub fn dle_extent(s: &[u8]) -> (r: Extent)
    requires
        s.len() >= 2,
    ensures
        r@ == dle_span(s@),
{
    match s[1] {
        EOT | ENQ => Extent::Ends(optional_end(s, 2, 1)),
        DC4 => Extent::Ends(optional_end(s, 2, 2)),
        _ => Extent::Ends(2),
    }
}

/// How far the command at the front of `s` reaches.
pub fn extent(s: &[u8]) -> (r: Extent)
    requires
        s.len() > 0,
    ensures
        r@ == span(s@),
{
    proof {
        reveal(span);
    }
    let first: u8 = s[0];
    if first == ESC || first == GS || first == FS || first == DLE {
        if s.len() < 2 {
            Extent::Incomplete
        } else if first == ESC {
            esc_extent(s)
        } else if first == GS {
            gs_extent(s)
        } else if first == FS {
            fs_extent(s)
        } else {
            dle_extent(s)
        }
    } else if first == DC2 {
        if s.len() > 1 && s[1] == DC2_DENSITY {
            Extent::Ends(optional_end(s, 2, 1))
        } else {
            Extent::Ends(1)
        }
    } else {
        match first {
            0x20..=0x7E | 0x80..=0xFF => if s.len() == 1 {
                Extent::Incomplete
            } else {
                Extent::Ends(1)
            },
            _ => Extent::Ends(1),
        }
    }
}

/// Where the first command begins that overruns the stream, or the end of the
/// stream.
pub fn find_overrun(s: &[u8]) -> (r: usize)
    ensures
        r == overrun_at(s@),
        r <= s.len(),
{
    let mut i: usize = 0;
    proof {
        assert(s@.skip(0) =~= s@);
    }
    while i < s.len()
        invariant
            i <= s.len(),
            i + overrun_at(s@.skip(i as int)) == overrun_at(s@),
        decreases s.len() - i,
    {
        let rest = vstd::slice::slice_subrange(s, i, s.len());
        proof {
            assert(rest@ =~= s@.skip(i as int));
            span_bounds(rest@);
        }
        match extent(rest) {
            Extent::Ends(e) => {
                proof {
                    assert(rest@.skip(e as int) =~= s@.skip(i + e));
                }
                i += e;
            },
            Extent::Incomplete => {
                return s.len();
            },
            Extent::Overrun => {
                return i;
            },
        }
    }
    i
}

/// Whether no command of the stream overruns it.
pub fn check_framing(s: &[u8]) -> (r: bool)
    ensures
        r == well_framed(s@),
{
    proof {
        well_framed_to_the_end(s@);
    }
    find_overrun(s) == s.len()
}

} // verus!
