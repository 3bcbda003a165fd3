//! What the printer promises of images.

use vstd::prelude::*;
use crate::chunking::{nv_whole, whole};
use crate::codes::{
    ESC, ESC_BIT_IMAGE, ESC_INITIALIZE, FS, FS_DEFINE_NV, FS_PRINT_NV, GS, GS_RASTER, ceil_div,
    le16,
};
use crate::framing::{
    MAX_DOTS, MAX_IMAGE_BYTES, Span, column_height, lemma_product16, nv_bytes, nv_end,
    nv_image_end, span,
};
use crate::laws::{lemma_logged_command, waiting_command_may_be_cut};
use crate::model::{Command, Machine, RendererView, command, feed, finish_line, image_element};
use crate::raster::{dot, raster_dot, rows_keep_dots, rows_of_columns};
use crate::state::{NvImageView, PrinterState, log_entry, nv_image, nv_table};

verus! {

/// `FS q` that defines slot 1.
pub open spec fn define_nv_bytes(width_bytes: int, height: int, data: Seq<u8>) -> Seq<u8> {
    seq![
        FS,
        FS_DEFINE_NV,
        1u8,
        (width_bytes % 256) as u8,
        (width_bytes / 256) as u8,
        (height % 256) as u8,
        (height / 256) as u8,
    ] + data
}

/// An NV image that was defined is printed as it was defined, by this and by
/// every other connection, also after `ESC @`.
pub proof fn defined_nv_image_prints(
    m: Machine,
    other: RendererView,
    width_bytes: int,
    height: int,
    data: Seq<u8>,
    mode: u8,
)
    requires
        m.renderer.pending.len() == 0,
        other.pending.len() == 0,
        0 < width_bytes <= 0xFFFF,
        0 < height <= 0xFFFF,
        data.len() == width_bytes * height,
    ensures
        ({
            let defined = feed(m, define_nv_bytes(width_bytes, height, data));
            let elsewhere = Machine { renderer: other, device: defined.device };
            let reset = feed(elsewhere, seq![ESC, ESC_INITIALIZE]);
            let f = finish_line(other);
            let g = finish_line(reset.renderer);
            &&& defined.device.nv_images.contains_key(1)
            &&& feed(elsewhere, seq![FS, FS_PRINT_NV, 1, mode]).renderer.elements
                == f.elements.push(
                image_element(f.state, width_bytes * 8, height, width_bytes, data),
            )
            &&& feed(reset, seq![FS, FS_PRINT_NV, 1, mode]).renderer.elements
                == g.elements.push(
                image_element(g.state, width_bytes * 8, height, width_bytes, data),
            )
        }),
{
    let define = define_nv_bytes(width_bytes, height, data);
    let print = seq![FS, FS_PRINT_NV, 1, mode];
    let reset_bytes = seq![ESC, ESC_INITIALIZE];
    lemma_product16(width_bytes, height);
    assert(data.len() > 0) by (nonlinear_arith)
        requires
            data.len() == width_bytes * height,
            0 < width_bytes,
            0 < height,
    ;
    assert(le16(define, 3) == width_bytes && le16(define, 5) == height);
    assert(nv_bytes(define, 3) == data.len());
    assert(define.subrange(7, 7 + data.len() as int) =~= data);
    let image = nv_image(define, 3);
    let table = Map::<u8, NvImageView>::empty().insert(1, image);
    assert(nv_end(define, define.len() as int, 0) == define.len());
    assert(nv_end(define, 3, 1) == define.len());
    assert(nv_table(table, define, define.len() as int, 2, 0) == table);
    assert(nv_table(Map::empty(), define, 3, 1, 1) == table);
    assert(span(define) == Span::Ends(define.len() as int) && command(define)
        == Command::DefineNv(table)) by {
        reveal(span);
        reveal(command);
    }
    assert(span(print) == Span::Ends(4) && command(print) == Command::PrintNv(1)) by {
        reveal(span);
        reveal(command);
    }
    assert(span(reset_bytes) == Span::Ends(2) && command(reset_bytes) == Command::Initialize) by {
        reveal(span);
        reveal(command);
    }
    assert(image.data == data);
    assert(ceil_div(image.width, 8) == width_bytes);
    lemma_logged_command(m, define, Command::DefineNv(table));
    let defined = feed(m, define);
    let elsewhere = Machine { renderer: other, device: defined.device };
    lemma_logged_command(elsewhere, print, Command::PrintNv(1));
    lemma_logged_command(elsewhere, reset_bytes, Command::Initialize);
    lemma_logged_command(feed(elsewhere, reset_bytes), print, Command::PrintNv(1));
}

/// `GS v 0` with an image of `width_bytes` by `height`.
pub open spec fn raster_image_bytes(
    variant: u8,
    mode: u8,
    width_bytes: int,
    height: int,
    data: Seq<u8>,
) -> Seq<u8> {
    seq![
        GS,
        GS_RASTER,
        variant,
        mode,
        (width_bytes % 256) as u8,
        (width_bytes / 256) as u8,
        (height % 256) as u8,
        (height / 256) as u8,
    ] + data
}

proof fn lemma_raster_command(
    variant: u8,
    mode: u8,
    width_bytes: int,
    height: int,
    data: Seq<u8>,
)
    requires
        0 < width_bytes * 8 <= MAX_DOTS,
        0 < height <= MAX_DOTS,
        data.len() == width_bytes * height <= MAX_IMAGE_BYTES,
    ensures
        span(raster_image_bytes(variant, mode, width_bytes, height, data)) == Span::Ends(
            8 + data.len() as int,
        ),
        command(raster_image_bytes(variant, mode, width_bytes, height, data)) == (Command::Image {
            width: width_bytes * 8,
            height,
            bytes_per_line: width_bytes,
            data,
            dumped: true,
        }),
{
    let s = raster_image_bytes(variant, mode, width_bytes, height, data);
    assert(le16(s, 4) == width_bytes && le16(s, 6) == height);
    assert(s.subrange(8, 8 + data.len() as int) =~= data);
    reveal(span);
    reveal(command);
}

/// A raster image is printed dot for dot behind the current line.
pub proof fn raster_image_prints(
    m: Machine,
    variant: u8,
    mode: u8,
    width_bytes: int,
    height: int,
    data: Seq<u8>,
)
    requires
        m.renderer.pending.len() == 0,
        0 < width_bytes * 8 <= MAX_DOTS,
        0 < height <= MAX_DOTS,
        data.len() == width_bytes * height <= MAX_IMAGE_BYTES,
    ensures
        ({
            let f = finish_line(m.renderer);
            let after = feed(m, raster_image_bytes(variant, mode, width_bytes, height, data));
            &&& after.renderer.elements == f.elements.push(
                image_element(f.state, width_bytes * 8, height, width_bytes, data),
            )
            &&& after.renderer.line.len() == 0
            &&& after.renderer.after_binary
            &&& after.renderer.pending.len() == 0
            &&& after.renderer.state == (PrinterState { horizontal_offset: 0, ..m.renderer.state })
        }),
{
    let s = raster_image_bytes(variant, mode, width_bytes, height, data);
    lemma_raster_command(variant, mode, width_bytes, height, data);
    lemma_logged_command(m, s, command(s));
}

/// A raster image may arrive in two pieces, cut anywhere but right behind
/// `GS v`.
pub proof fn raster_image_may_be_cut(
    m: Machine,
    variant: u8,
    mode: u8,
    width_bytes: int,
    height: int,
    data: Seq<u8>,
    k: int,
)
    requires
        m.renderer.pending.len() == 0,
        0 < width_bytes * 8 <= MAX_DOTS,
        0 < height <= MAX_DOTS,
        data.len() == width_bytes * height <= MAX_IMAGE_BYTES,
        0 <= k <= 8 + data.len(),
        k != 2,
    ensures
        ({
            let s = raster_image_bytes(variant, mode, width_bytes, height, data);
            feed(feed(m, s.take(k)), s.skip(k)) == feed(m, s)
        }),
{
    let s = raster_image_bytes(variant, mode, width_bytes, height, data);
    lemma_raster_command(variant, mode, width_bytes, height, data);
    assert(le16(s, 4) == width_bytes && le16(s, 6) == height);
    assert(whole(s)) by {
        reveal(whole);
    }
    if 0 < k < s.len() {
        let first = s.take(k);
        assert(span(first) is Incomplete) by {
            reveal(span);
            if k >= 8 {
                assert(le16(first, 4) == le16(s, 4) && le16(first, 6) == le16(s, 6));
            }
        }
    }
    waiting_command_may_be_cut(m, s, k);
}

/// `ESC *` with a column image of `width` columns.
pub open spec fn column_image_bytes(mode: u8, width: int, data: Seq<u8>) -> Seq<u8> {
    seq![ESC, ESC_BIT_IMAGE, mode, (width % 256) as u8, (width / 256) as u8] + data
}

proof fn lemma_column_command(mode: u8, width: int, data: Seq<u8>)
    requires
        0 < width <= MAX_DOTS,
        data.len() == width * (column_height(mode) / 8),
    ensures
        ({
            let s = column_image_bytes(mode, width, data);
            let height = column_height(mode);
            &&& span(s) == Span::Ends(s.len() as int)
            &&& command(s) == (Command::Image {
                width,
                height,
                bytes_per_line: ceil_div(width, 8),
                data: rows_of_columns(data, width, height),
                dumped: false,
            })
        }),
{
    let s = column_image_bytes(mode, width, data);
    assert(le16(s, 3) == width);
    assert(s.subrange(5, 5 + data.len() as int) =~= data);
    reveal(span);
    reveal(command);
}

/// A column image is printed behind the current line, turned into rows.
pub proof fn column_image_prints(m: Machine, mode: u8, width: int, data: Seq<u8>)
    requires
        m.renderer.pending.len() == 0,
        0 < width <= MAX_DOTS,
        data.len() == width * (column_height(mode) / 8),
    ensures
        ({
            let height = column_height(mode);
            let rows = rows_of_columns(data, width, height);
            let f = finish_line(m.renderer);
            feed(m, column_image_bytes(mode, width, data)).renderer.elements == f.elements.push(
                image_element(f.state, width, height, ceil_div(width, 8), rows),
            )
        }),
{
    let s = column_image_bytes(mode, width, data);
    lemma_column_command(mode, width, data);
    lemma_logged_command(m, s, command(s));
}

/// A column image may arrive in two pieces, cut anywhere. The first piece changes
/// nothing but what waits, and the command is logged once.
pub proof fn column_image_may_be_cut(m: Machine, mode: u8, width: int, data: Seq<u8>, k: int)
    requires
        m.renderer.pending.len() == 0,
        0 < width <= MAX_DOTS,
        data.len() == width * (column_height(mode) / 8),
        0 <= k <= 5 + data.len(),
    ensures
        ({
            let s = column_image_bytes(mode, width, data);
            &&& feed(feed(m, s.take(k)), s.skip(k)) == feed(m, s)
            &&& feed(m, s).device.log == m.device.log.push(log_entry(ESC, ESC_BIT_IMAGE))
            &&& 0 < k < s.len() ==> feed(m, s.take(k)) == (Machine {
                renderer: RendererView { pending: s.take(k), in_command: true, ..m.renderer },
                ..m
            })
        }),
{
    let s = column_image_bytes(mode, width, data);
    lemma_column_command(mode, width, data);
    lemma_logged_command(m, s, command(s));
    assert(le16(s, 3) == width);
    assert(whole(s)) by {
        reveal(whole);
    }
    if 0 < k < s.len() {
        let first = s.take(k);
        assert(span(first) is Incomplete) by {
            reveal(span);
            if k >= 5 {
                assert(le16(first, 3) == le16(s, 3));
            }
        }
    }
    waiting_command_may_be_cut(m, s, k);
}

/// Every dot of a column image is in its place: byte `y / 8` of column `x` holds
/// the dot in its bit `y % 8` from above.
pub proof fn column_image_dots(mode: u8, width: int, data: Seq<u8>, x: int, y: int)
    requires
        0 < width <= MAX_DOTS,
        data.len() == width * (column_height(mode) / 8),
        0 <= x < width,
        0 <= y < column_height(mode),
    ensures
        ({
            let height = column_height(mode);
            raster_dot(rows_of_columns(data, width, height), ceil_div(width, 8), x, y) == dot(
                data[x * (height / 8) + y / 8],
                y % 8,
            )
        }),
{
    let height = column_height(mode);
    let b = height / 8;
    rows_keep_dots(data, width, height, x, y);
    assert(0 <= x * b + y / 8 < width * b) by (nonlinear_arith)
        requires
            0 <= x < width,
            0 <= y / 8 < b,
    ;
}

/// Where the header of NV image `k` of `FS q` is.
pub open spec fn nv_position(s: Seq<u8>, pos: int, k: nat) -> int
    decreases k,
{
    if k == 0 {
        pos
    } else {
        nv_position(s, nv_image_end(s, pos), (k - 1) as nat)
    }
}

proof fn lemma_nv_table_slots(
    images: Map<u8, NvImageView>,
    s: Seq<u8>,
    pos: int,
    slot: int,
    count: nat,
    k: int,
)
    requires
        0 <= pos <= s.len(),
        nv_whole(s, pos, count),
        0 <= slot,
        slot + count <= 256,
        0 <= k < 256,
    ensures
        ({
            let table = nv_table(images, s, pos, slot, count);
            let at = nv_position(s, pos, (k - slot) as nat);
            &&& k < slot || slot + count <= k ==> {
                &&& table.contains_key(k as u8) == images.contains_key(k as u8)
                &&& images.contains_key(k as u8) ==> table[k as u8] == images[k as u8]
            }
            &&& slot <= k < slot + count && 0 < nv_bytes(s, at) ==> {
                &&& table.contains_key(k as u8)
                &&& table[k as u8] == nv_image(s, at)
            }
            &&& slot <= k < slot + count && 0 >= nv_bytes(s, at) ==> {
                &&& table.contains_key(k as u8) == images.contains_key(k as u8)
                &&& images.contains_key(k as u8) ==> table[k as u8] == images[k as u8]
            }
        }),
    decreases count,
{
    if count > 0 {
        lemma_product16(le16(s, pos), le16(s, pos + 2));
        let next = if 0 < nv_bytes(s, pos) {
            images.insert(slot as u8, nv_image(s, pos))
        } else {
            images
        };
        assert(nv_image_end(s, pos) == pos + 4 + nv_bytes(s, pos));
        lemma_nv_table_slots(next, s, nv_image_end(s, pos), slot + 1, (count - 1) as nat, k);
        if k == slot {
            assert(nv_position(s, pos, 0) == pos);
        }
    }
}

/// `FS q` that has all its bytes defines its images from slot 1 on, in their
/// order. An empty image defines nothing.
pub proof fn nv_slots_are_in_order(s: Seq<u8>, k: int)
    requires
        s.len() >= 3,
        s[0] == FS,
        s[1] == FS_DEFINE_NV,
        nv_whole(s, 3, s[2] as nat),
        1 <= k <= s[2],
    ensures
        ({
            let at = nv_position(s, 3, (k - 1) as nat);
            command(s) matches Command::DefineNv(images) && images.contains_key(k as u8) == (0
                < nv_bytes(s, at)) && (images.contains_key(k as u8) ==> images[k as u8]
                == nv_image(s, at))
        }),
{
    reveal(command);
    lemma_nv_table_slots(Map::empty(), s, 3, 1, s[2] as nat, k);
}

} // verus!
