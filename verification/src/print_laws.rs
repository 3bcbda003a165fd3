//! What images, barcodes and symbols are printed as, field by field.
//!
//! In every law `rest` is whatever is sent behind the command: it is read on from
//! the byte behind the last one of the command.

use vstd::prelude::*;
use crate::chunking::whole;
use crate::codepage::utf8_text;
use crate::codes::{le16, le32};
use crate::element::{Alignment, Barcode2DVariant, BarcodeType, ElementView, HriPosition};
use crate::framing::{Span, column_height, lemma_nul_at, lemma_product16, nul_at, span};
use crate::laws::logged;
use crate::model::{
    Command, DumpView, Machine, RendererView, apply, command, feed, finish_line, gs_command, step,
};
use crate::raster::rows_of_columns;
use crate::setting_laws::{alignment_is_set, hri_position_is_set};
use crate::state::{PrinterState, SymbolSettings};
use crate::stream::{
    lemma_effect, lemma_esc_stream, lemma_fs_stream, lemma_gs_stream, lemma_plain_effect,
    nothing_sent_is_nothing,
};

verus! {

/// The printer once a line that is under way is printed, as a carriage return does;
/// text is taken again only if it was taken before.
pub open spec fn line_printed(m: Machine) -> Machine {
    let p = feed(m, seq![0x0Du8]);
    Machine {
        renderer: RendererView { after_binary: m.renderer.after_binary, ..p.renderer },
        ..p
    }
}

pub(crate) proof fn lemma_line_printed(m: Machine)
    requires
        m.renderer.pending.len() == 0,
        !m.renderer.in_command,
    ensures
        line_printed(m) == (Machine { renderer: finish_line(m.renderer), ..m }),
{
    let e = Seq::<u8>::empty();
    let r = RendererView { after_binary: false, ..m.renderer };
    let p = Machine { renderer: finish_line(r), ..m };
    reveal(span);
    reveal(command);
    assert(seq![0x0Du8] + e =~= seq![0x0Du8]);
    lemma_plain_effect(m, seq![0x0Du8], e);
    nothing_sent_is_nothing(p);
}

pub(crate) proof fn lemma_line_first(m: Machine, t: Seq<u8>)
    requires
        m.renderer.pending.len() == 0,
        !m.renderer.in_command,
        t.len() > 0,
        span(t) is Ends,
        apply(finish_line(m.renderer), m.device, command(t)) == apply(
            m.renderer,
            m.device,
            command(t),
        ),
    ensures
        feed(m, t) == feed(line_printed(m), t),
{
    let p = line_printed(m);
    lemma_line_printed(m);
    assert(step(m, t) == step(p, t)) by {
        reveal(step);
    }
    assert(m.renderer.pending + t =~= t);
    assert(p.renderer.pending + t =~= t);
}

proof fn lemma_finished_twice(r: RendererView)
    ensures
        finish_line(finish_line(r)) == finish_line(r),
{
}

proof fn lemma_empty_line(r: RendererView)
    requires
        r.line.len() == 0,
    ensures
        finish_line(r) == r,
{
    assert(r.line =~= Seq::empty());
}

/// The printer with one element more, in the place and with the alignment of the
/// moment; the offset is used up.
pub open spec fn with_printed(m: Machine, e: ElementView) -> Machine {
    Machine {
        renderer: RendererView {
            elements: m.renderer.elements.push(e),
            state: PrinterState { horizontal_offset: 0, ..m.renderer.state },
            ..m.renderer
        },
        ..m
    }
}

/// The printer behind image data: text is not taken before a line end.
pub open spec fn behind_image(m: Machine) -> Machine {
    Machine { renderer: RendererView { after_binary: true, ..m.renderer }, ..m }
}

/// The printer with an image kept for inspection, if debugging is on.
pub open spec fn inspected(m: Machine, width: int, height: int, data: Seq<u8>) -> Machine {
    if m.renderer.debug {
        Machine {
            renderer: RendererView {
                dumps: m.renderer.dumps.push(DumpView { width, height, data }),
                ..m.renderer
            },
            ..m
        }
    } else {
        m
    }
}

/// `GS v` with an image of up to 10,000 dots in both directions and up to 5,000,000
/// bytes prints it byte for byte, eight dots a byte. A line that is under way is
/// printed first, as a line end does.
#[verifier::rlimit(40)]
pub proof fn raster_image_is_printed(
    m: Machine,
    a: u8,
    b: u8,
    wide: int,
    high: int,
    data: Seq<u8>,
    rest: Seq<u8>,
)
    requires
        m.renderer.pending.len() == 0,
        !m.renderer.in_command,
        0 < wide <= 1250,
        0 < high <= 10_000,
        data.len() == wide * high,
        data.len() <= 5_000_000,
    ensures
        ({
            let s = seq![
                0x1Du8,
                0x76u8,
                a,
                b,
                (wide % 256) as u8,
                (wide / 256) as u8,
                (high % 256) as u8,
                (high / 256) as u8,
            ] + data;
            let e = ElementView::RasterImage {
                width: 8 * wide,
                height: high,
                data: data,
                offset: m.renderer.state.horizontal_offset,
                density: m.renderer.state.print_density,
                alignment: m.renderer.state.alignment,
                bytes_per_line: wide,
                print_area_width: m.renderer.state.print_area_width,
            };
            &&& m.renderer.line.len() == 0 ==> feed(m, s + rest) == feed(
                logged(
                    inspected(behind_image(with_printed(m, e)), 8 * wide, high, data),
                    0x1D,
                    0x76,
                ),
                rest,
            )
            &&& feed(m, s + rest) == feed(line_printed(m), s + rest)
        }),
{
    let h = seq![
        0x1Du8,
        0x76u8,
        a,
        b,
        (wide % 256) as u8,
        (wide / 256) as u8,
        (high % 256) as u8,
        (high / 256) as u8,
    ];
    let s = h + data;
    let t = s + rest;
    assert(le16(t, 4) == wide && le16(t, 6) == high);
    assert(t.subrange(8, 8 + data.len() as int) =~= data);
    assert(span(t) == Span::Ends(s.len() as int)) by {
        lemma_gs_stream();
    }
    let c = Command::Image { width: 8 * wide, height: high, bytes_per_line: wide, data, dumped: true };
    assert(command(t) == c) by {
        lemma_gs_stream();
    }
    lemma_finished_twice(m.renderer);
    if m.renderer.line.len() == 0 {
        lemma_empty_line(m.renderer);
        lemma_effect(m, s, rest);
    }
    lemma_line_first(m, t);
}

/// `GS v` waits until all its image data is there, and changes nothing until then.
pub proof fn raster_image_waits(m: Machine, head: Seq<u8>, data: Seq<u8>)
    requires
        m.renderer.pending.len() == 0,
        !m.renderer.in_command,
        3 <= head.len() <= 8,
        head[0] == 0x1D && head[1] == 0x76,
        head.len() < 8 ==> data.len() == 0,
        head.len() == 8 ==> {
            let wide = head[4] + 256 * head[5];
            let high = head[6] + 256 * head[7];
            &&& 0 < wide
            &&& 0 < high
            &&& wide <= 1250 && high <= 10_000 ==> wide * high <= 5_000_000
            &&& data.len() < wide * high
        },
    ensures
        feed(m, head + data) == (Machine {
            renderer: RendererView { pending: head + data, in_command: true, ..m.renderer },
            ..m
        }),
{
    let t = head + data;
    lemma_gs_stream();
    assert(m.renderer.pending + t =~= t);
    if head.len() == 8 {
        let wide = head[4] + 256 * head[5];
        let high = head[6] + 256 * head[7];
        lemma_product16(wide, high);
        assert(le16(t, 4) == wide && le16(t, 6) == high);
    }
}

/// `GS v` with an image that is too wide or too high is skipped with its data. One
/// without dots, or within the limits but with too much data, ends behind its
/// header.
pub proof fn other_raster_images_are_skipped(
    m: Machine,
    a: u8,
    b: u8,
    wide: int,
    high: int,
    data: Seq<u8>,
    rest: Seq<u8>,
)
    requires
        m.renderer.pending.len() == 0,
        !m.renderer.in_command,
        0 <= wide <= 65_535,
        0 <= high <= 65_535,
        wide > 1250 || high > 10_000 || wide == 0 || high == 0 || wide * high > 5_000_000,
        if wide == 0 || high == 0 || (wide <= 1250 && high <= 10_000) {
            data.len() == 0
        } else {
            data.len() == wide * high && data.len() <= 5_000_000
        },
    ensures
        feed(
            m,
            seq![
                0x1Du8,
                0x76u8,
                a,
                b,
                (wide % 256) as u8,
                (wide / 256) as u8,
                (high % 256) as u8,
                (high / 256) as u8,
            ] + data + rest,
        ) == feed(logged(m, 0x1D, 0x76), rest),
{
    let h = seq![
        0x1Du8,
        0x76u8,
        a,
        b,
        (wide % 256) as u8,
        (wide / 256) as u8,
        (high % 256) as u8,
        (high / 256) as u8,
    ];
    let s = h + data;
    let t = s + rest;
    assert(le16(t, 4) == wide && le16(t, 6) == high);
    lemma_product16(wide, high);
    lemma_gs_stream();
    lemma_effect(m, s, rest);
}

/// `GS 8 L` with function 48 or 112, a declared length of up to 100,000 and an
/// image of up to 5,000,000 bytes prints the image, its rows padded to bytes. A
/// line that is under way is printed first, as a line end does.
#[verifier::rlimit(40)]
pub proof fn graphics_are_printed(
    m: Machine,
    length: Seq<u8>,
    function: u8,
    p: Seq<u8>,
    width: int,
    high: int,
    data: Seq<u8>,
    rest: Seq<u8>,
)
    requires
        m.renderer.pending.len() == 0,
        !m.renderer.in_command,
        length.len() == 4,
        length[0] + 256 * length[1] + 65_536 * length[2] + 16_777_216 * length[3] <= 100_000,
        function == 48 || function == 112,
        p.len() == 5,
        0 <= width <= 65_535,
        0 <= high <= 65_535,
        data.len() == ((width + 7) / 8) * high,
        data.len() <= 5_000_000,
    ensures
        ({
            let s = seq![0x1Du8, 0x38u8, 0x4Cu8] + length + seq![function] + p + seq![
                (width % 256) as u8,
                (width / 256) as u8,
                (high % 256) as u8,
                (high / 256) as u8,
            ] + data;
            let e = ElementView::RasterImage {
                width: width,
                height: high,
                data: data,
                offset: m.renderer.state.horizontal_offset,
                density: m.renderer.state.print_density,
                alignment: m.renderer.state.alignment,
                bytes_per_line: (width + 7) / 8,
                print_area_width: m.renderer.state.print_area_width,
            };
            &&& m.renderer.line.len() == 0 ==> feed(m, s + rest) == feed(
                logged(behind_image(with_printed(m, e)), 0x1D, 0x38),
                rest,
            )
            &&& feed(m, s + rest) == feed(line_printed(m), s + rest)
        }),
{
    let h = seq![0x1Du8, 0x38u8, 0x4Cu8] + length + seq![function] + p + seq![
        (width % 256) as u8,
        (width / 256) as u8,
        (high % 256) as u8,
        (high / 256) as u8,
    ];
    let s = h + data;
    let t = s + rest;
    assert(h.len() == 17 && h[0] == 0x1D && h[1] == 0x38 && h[2] == 0x4C);
    assert(h[3] == length[0] && h[4] == length[1] && h[5] == length[2] && h[6] == length[3]);
    assert(h[7] == function);
    assert(le16(h, 13) == width && le16(h, 15) == high);
    assert(le16(t, 13) == width && le16(t, 15) == high && le32(t, 3) <= 100_000 && t[7] == function);
    assert(t.subrange(17, 17 + data.len() as int) =~= data);
    assert(span(t) == Span::Ends(s.len() as int)) by {
        lemma_gs_stream();
    }
    let c = Command::Image {
        width,
        height: high,
        bytes_per_line: (width + 7) / 8,
        data,
        dumped: false,
    };
    assert(command(t) == c) by {
        lemma_gs_stream();
    }
    lemma_finished_twice(m.renderer);
    if m.renderer.line.len() == 0 {
        lemma_empty_line(m.renderer);
        lemma_effect(m, s, rest);
    }
    lemma_line_first(m, t);
}

/// Any other `GS 8 L` is skipped by its declared length, which counts from the
/// function byte on: a function that has no image, or an image that is too large.
#[verifier::rlimit(40)]
pub proof fn other_graphics_are_skipped(m: Machine, body: Seq<u8>, rest: Seq<u8>)
    requires
        m.renderer.pending.len() == 0,
        !m.renderer.in_command,
        6 <= body.len() <= 0xFFFF_FFFF,
        body[0] == 48 || body[0] == 112 ==> {
            &&& body.len() >= 10
            &&& body.len() > 100_000 || ((body[6] + 256 * body[7] + 7) / 8) * (body[8] + 256
                * body[9]) > 5_000_000
        },
    ensures
        ({
            let n = body.len();
            feed(
                m,
                seq![
                    0x1Du8,
                    0x38u8,
                    0x4Cu8,
                    (n % 256) as u8,
                    ((n / 256) % 256) as u8,
                    ((n / 65_536) % 256) as u8,
                    (n / 16_777_216) as u8,
                ] + body + rest,
            ) == feed(logged(m, 0x1D, 0x38), rest)
        }),
{
    let n = body.len();
    let h = seq![
        0x1Du8,
        0x38u8,
        0x4Cu8,
        (n % 256) as u8,
        ((n / 256) % 256) as u8,
        ((n / 65_536) % 256) as u8,
        (n / 16_777_216) as u8,
    ];
    let s = h + body;
    let t = s + rest;
    assert(le32(t, 3) == n);
    assert(t[7] == body[0]);
    if body[0] == 48 || body[0] == 112 {
        assert(le16(t, 13) == body[6] + 256 * body[7] && le16(t, 15) == body[8] + 256 * body[9]);
    }
    lemma_gs_stream();
    lemma_effect(m, s, rest);
}

/// `GS 8 L` waits for its header, for the four bytes of its size where it has an
/// image, and for all its image data. It changes nothing until then.
pub proof fn graphics_wait(m: Machine, t: Seq<u8>)
    requires
        m.renderer.pending.len() == 0,
        !m.renderer.in_command,
        3 <= t.len(),
        t[0] == 0x1D && t[1] == 0x38 && t[2] == 0x4C,
        t.len() >= 13 ==> t[7] == 48 || t[7] == 112,
        t.len() >= 17 ==> {
            let length = t[3] + 256 * t[4] + 65_536 * t[5] + 16_777_216 * t[6];
            let bytes = ((t[13] + 256 * t[14] + 7) / 8) * (t[15] + 256 * t[16]);
            if length > 100_000 || bytes > 5_000_000 {
                length > 6 && t.len() < 7 + length
            } else {
                t.len() < 17 + bytes
            }
        },
    ensures
        feed(m, t) == (Machine {
            renderer: RendererView { pending: t, in_command: true, ..m.renderer },
            ..m
        }),
{
    lemma_gs_stream();
    assert(m.renderer.pending + t =~= t);
}

/// `ESC *` prints an image of 24 dots in three bytes a column for the modes 32 and
/// 33, and of eight dots in one byte a column for all others, of up to 10,000
/// columns, turned into rows. A line that is under way is printed first, as a line
/// end does.
#[verifier::rlimit(40)]
pub proof fn column_image_is_printed(
    m: Machine,
    mode: u8,
    width: int,
    data: Seq<u8>,
    rest: Seq<u8>,
)
    requires
        m.renderer.pending.len() == 0,
        !m.renderer.in_command,
        0 < width <= 10_000,
        data.len() == (if mode == 32 || mode == 33 {
            3 * width
        } else {
            width
        }),
    ensures
        ({
            let s = seq![0x1Bu8, 0x2Au8, mode, (width % 256) as u8, (width / 256) as u8] + data;
            let high: int = if mode == 32 || mode == 33 {
                24
            } else {
                8
            };
            let e = ElementView::RasterImage {
                width: width,
                height: high,
                data: rows_of_columns(data, width, high),
                offset: m.renderer.state.horizontal_offset,
                density: m.renderer.state.print_density,
                alignment: m.renderer.state.alignment,
                bytes_per_line: (width + 7) / 8,
                print_area_width: m.renderer.state.print_area_width,
            };
            &&& m.renderer.line.len() == 0 ==> feed(m, s + rest) == feed(
                logged(behind_image(with_printed(m, e)), 0x1B, 0x2A),
                rest,
            )
            &&& feed(m, s + rest) == feed(line_printed(m), s + rest)
        }),
{
    let h = seq![0x1Bu8, 0x2Au8, mode, (width % 256) as u8, (width / 256) as u8];
    let s = h + data;
    let t = s + rest;
    let high: int = if mode == 32 || mode == 33 {
        24
    } else {
        8
    };
    assert(le16(t, 3) == width);
    assert(column_height(mode) == high);
    assert(width * (high / 8) == data.len()) by (nonlinear_arith)
        requires
            high == 24 && data.len() == 3 * width || high == 8 && data.len() == width,
    ;
    assert(t.subrange(5, 5 + data.len() as int) =~= data);
    assert(span(t) == Span::Ends(s.len() as int)) by {
        lemma_esc_stream();
    }
    let c = Command::Image {
        width,
        height: high,
        bytes_per_line: (width + 7) / 8,
        data: rows_of_columns(data, width, high),
        dumped: false,
    };
    assert(command(t) == c) by {
        lemma_esc_stream();
    }
    lemma_finished_twice(m.renderer);
    if m.renderer.line.len() == 0 {
        lemma_empty_line(m.renderer);
        lemma_effect(m, s, rest);
    }
    lemma_line_first(m, t);
}

/// `ESC *` waits until all its data is there, and changes nothing until then.
pub proof fn column_image_waits(m: Machine, t: Seq<u8>)
    requires
        m.renderer.pending.len() == 0,
        !m.renderer.in_command,
        2 <= t.len(),
        t[0] == 0x1B && t[1] == 0x2A,
        t.len() >= 5 ==> {
            let width = t[3] + 256 * t[4];
            &&& 0 < width <= 10_000
            &&& t.len() < 5 + (if t[2] == 32 || t[2] == 33 {
                3 * width
            } else {
                width
            })
        },
    ensures
        feed(m, t) == (Machine {
            renderer: RendererView { pending: t, in_command: true, ..m.renderer },
            ..m
        }),
{
    lemma_esc_stream();
    assert(m.renderer.pending + t =~= t);
}

/// `ESC *` of no columns, or of more than 10,000, ends behind its header.
pub proof fn other_column_images_are_skipped(m: Machine, mode: u8, width: int, rest: Seq<u8>)
    requires
        m.renderer.pending.len() == 0,
        !m.renderer.in_command,
        width == 0 || 10_000 < width <= 65_535,
    ensures
        feed(
            m,
            seq![0x1Bu8, 0x2Au8, mode, (width % 256) as u8, (width / 256) as u8] + rest,
        ) == feed(logged(m, 0x1B, 0x2A), rest),
{
    let s = seq![0x1Bu8, 0x2Au8, mode, (width % 256) as u8, (width / 256) as u8];
    let t = s + rest;
    assert(le16(t, 3) == width);
    lemma_esc_stream();
    lemma_effect(m, s, rest);
}

/// `FS p n m` prints the NV image of slot `n` as it is stored. A line that is under
/// way is printed first, as a line end does. A slot that is not defined prints
/// nothing.
pub proof fn nv_image_is_printed(m: Machine, slot: u8, mode: u8, rest: Seq<u8>)
    requires
        m.renderer.pending.len() == 0,
        !m.renderer.in_command,
    ensures
        ({
            let s = seq![0x1Cu8, 0x70u8, slot, mode];
            let image = m.device.nv_images[slot];
            let e = ElementView::RasterImage {
                width: image.width,
                height: image.height,
                data: image.data,
                offset: m.renderer.state.horizontal_offset,
                density: m.renderer.state.print_density,
                alignment: m.renderer.state.alignment,
                bytes_per_line: (image.width + 7) / 8,
                print_area_width: m.renderer.state.print_area_width,
            };
            if m.device.nv_images.contains_key(slot) {
                &&& m.renderer.line.len() == 0 ==> feed(m, s + rest) == feed(
                    logged(with_printed(m, e), 0x1C, 0x70),
                    rest,
                )
                &&& feed(m, s + rest) == feed(line_printed(m), s + rest)
            } else {
                feed(m, s + rest) == feed(logged(m, 0x1C, 0x70), rest)
            }
        }),
{
    let s = seq![0x1Cu8, 0x70u8, slot, mode];
    let t = s + rest;
    assert(span(t) == Span::Ends(4)) by {
        lemma_fs_stream();
    }
    assert(command(t) == Command::PrintNv(slot)) by {
        lemma_fs_stream();
    }
    lemma_finished_twice(m.renderer);
    if m.device.nv_images.contains_key(slot) {
        if m.renderer.line.len() == 0 {
            lemma_empty_line(m.renderer);
            lemma_effect(m, s, rest);
        }
        lemma_line_first(m, t);
    } else {
        lemma_effect(m, s, rest);
    }
}

/// The barcode types in the order of their numbers.
pub open spec fn barcode_type_at(k: u8) -> BarcodeType {
    match k {
        0 => BarcodeType::UpcA,
        1 => BarcodeType::UpcE,
        2 => BarcodeType::Ean13,
        3 => BarcodeType::Ean8,
        4 => BarcodeType::Code39,
        5 => BarcodeType::Itf,
        6 => BarcodeType::Codabar,
        7 => BarcodeType::Code93,
        _ => BarcodeType::Code128,
    }
}

/// A barcode with the settings of the moment.
pub open spec fn barcode_now(m: Machine, barcode_type: BarcodeType, data: Seq<u8>) -> ElementView {
    ElementView::Barcode {
        data,
        barcode_type,
        height: m.renderer.symbols.barcode_height,
        module_width: m.renderer.symbols.barcode_module_width,
        hri_position: m.renderer.symbols.barcode_hri_position,
        alignment: m.renderer.state.alignment,
        offset: m.renderer.state.horizontal_offset,
        print_area_width: m.renderer.state.print_area_width,
    }
}

/// `GS k` with a type from 65 to 73 and counted data prints a barcode of the data,
/// or nothing where there is none. Where bytes are missing at the end of the
/// stream, what is there is printed. A line that is under way is printed first.
pub proof fn counted_barcode_is_printed(m: Machine, k: u8, n: u8, data: Seq<u8>, rest: Seq<u8>)
    requires
        m.renderer.pending.len() == 0,
        !m.renderer.in_command,
        0 <= k <= 8,
        data.len() == n || (data.len() < n && rest.len() == 0),
    ensures
        ({
            let s = seq![0x1Du8, 0x6Bu8, (65 + k) as u8, n] + data;
            let e = barcode_now(m, barcode_type_at(k), data);
            if data.len() == 0 {
                feed(m, s + rest) == feed(logged(m, 0x1D, 0x6B), rest)
            } else {
                &&& m.renderer.line.len() == 0 ==> feed(m, s + rest) == feed(
                    logged(with_printed(m, e), 0x1D, 0x6B),
                    rest,
                )
                &&& feed(m, s + rest) == feed(line_printed(m), s + rest)
            }
        }),
{
    let s = seq![0x1Du8, 0x6Bu8, (65 + k) as u8, n] + data;
    let t = s + rest;
    assert(t.subrange(4, 4 + data.len() as int) =~= data);
    assert(span(t) == Span::Ends(s.len() as int)) by {
        lemma_gs_stream();
    }
    lemma_barcode(m, s, rest, data, barcode_type_at(k));
}

proof fn lemma_barcode(
    m: Machine,
    s: Seq<u8>,
    rest: Seq<u8>,
    data: Seq<u8>,
    barcode_type: BarcodeType,
)
    requires
        m.renderer.pending.len() == 0,
        !m.renderer.in_command,
        s.len() > 3,
        s[0] == 0x1D,
        s[1] == 0x6B,
        span(s + rest) == Span::Ends(s.len() as int),
        gs_command(s + rest) == (if data.len() == 0 {
            Command::Ignored
        } else {
            Command::Barcode { barcode_type, data }
        }),
    ensures
        data.len() == 0 ==> feed(m, s + rest) == feed(logged(m, 0x1D, 0x6B), rest),
        data.len() > 0 && m.renderer.line.len() == 0 ==> feed(m, s + rest) == feed(
            logged(with_printed(m, barcode_now(m, barcode_type, data)), 0x1D, 0x6B),
            rest,
        ),
        data.len() > 0 ==> feed(m, s + rest) == feed(line_printed(m), s + rest),
{
    let t = s + rest;
    assert(t[0] == 0x1D);
    assert(command(t) == gs_command(t)) by {
        lemma_gs_stream();
    }
    lemma_finished_twice(m.renderer);
    if data.len() == 0 {
        lemma_effect(m, s, rest);
    } else {
        if m.renderer.line.len() == 0 {
            lemma_empty_line(m.renderer);
            lemma_effect(m, s, rest);
        }
        lemma_line_first(m, t);
    }
}

/// `GS k` with a type from zero to five prints a barcode of the data before the
/// NUL, or before the end of the stream where there is no NUL; nothing where there
/// is no data. A line that is under way is printed first.
pub proof fn terminated_barcode_is_printed(m: Machine, k: u8, data: Seq<u8>, rest: Seq<u8>)
    requires
        m.renderer.pending.len() == 0,
        !m.renderer.in_command,
        0 <= k <= 5,
        forall|j: int| 0 <= j < data.len() ==> #[trigger] data[j] != 0,
    ensures
        ({
            let s = seq![0x1Du8, 0x6Bu8, k] + data;
            let e = barcode_now(m, barcode_type_at(k), data);
            let whole = s + seq![0u8] + rest;
            if data.len() == 0 {
                feed(m, whole) == feed(logged(m, 0x1D, 0x6B), rest)
            } else {
                &&& m.renderer.line.len() == 0 ==> feed(m, whole) == feed(
                    logged(with_printed(m, e), 0x1D, 0x6B),
                    rest,
                )
                &&& m.renderer.line.len() == 0 ==> feed(m, s) == logged(with_printed(m, e), 0x1D, 0x6B)
                &&& feed(m, whole) == feed(line_printed(m), whole)
            }
        }),
{
    let h = seq![0x1Du8, 0x6Bu8, k] + data;
    let s = h + seq![0u8];
    let t = s + rest;
    let e = Seq::<u8>::empty();
    assert(t.subrange(3, 3 + data.len() as int) =~= data);
    assert(nul_at(t, 3) == 3 + data.len()) by {
        lemma_nul_at(t, 3);
        let z = nul_at(t, 3);
        assert(t[3 + data.len() as int] == 0);
        if z < 3 + data.len() {
            assert(t[z] == data[z - 3]);
        }
    }
    assert(span(t) == Span::Ends(s.len() as int)) by {
        lemma_gs_stream();
    }
    lemma_barcode(m, s, rest, data, barcode_type_at(k));
    if data.len() > 0 {
        assert(h + e =~= h);
        assert(h.subrange(3, 3 + data.len() as int) =~= data);
        assert(nul_at(h, 3) == 3 + data.len()) by {
            lemma_nul_at(h, 3);
            let z = nul_at(h, 3);
            if z < 3 + data.len() {
                assert(h[z] == data[z - 3]);
            }
        }
        assert(span(h) == Span::Ends(h.len() as int)) by {
            lemma_gs_stream();
        }
        lemma_barcode(m, h, e, data, barcode_type_at(k));
        nothing_sent_is_nothing(
            logged(with_printed(m, barcode_now(m, barcode_type_at(k), data)), 0x1D, 0x6B),
        );
    }
}

/// `GS k` with any other type is taken with its type byte, and so is one that ends
/// behind its type byte.
pub proof fn other_barcodes_are_skipped(m: Machine, n: u8, rest: Seq<u8>)
    requires
        m.renderer.pending.len() == 0,
        !m.renderer.in_command,
    ensures
        (6 <= n < 65 || 73 < n) ==> feed(m, seq![0x1Du8, 0x6Bu8, n] + rest) == feed(
            logged(m, 0x1D, 0x6B),
            rest,
        ),
        feed(m, seq![0x1Du8, 0x6Bu8, n]) == logged(m, 0x1D, 0x6B),
{
    let s = seq![0x1Du8, 0x6Bu8, n];
    let e = Seq::<u8>::empty();
    lemma_gs_stream();
    if 6 <= n < 65 || 73 < n {
        lemma_effect(m, s, rest);
    }
    assert(s + e =~= s);
    lemma_nul_at(s, 3);
    lemma_effect(m, s, e);
    nothing_sent_is_nothing(logged(m, 0x1D, 0x6B));
}

/// A barcode behind `GS H n` has its text where `n` says.
pub proof fn barcode_behind_hri(m: Machine, n: u8, k: u8, data: Seq<u8>)
    requires
        m.renderer.pending.len() == 0,
        !m.renderer.in_command,
        0 <= k <= 8,
        0 < data.len() <= 255,
        m.renderer.line.len() == 0,
    ensures
        ({
            let s = seq![0x1Du8, 0x6Bu8, (65 + k) as u8, data.len() as u8] + data;
            let e = feed(m, seq![0x1Du8, 0x48u8, n] + s).renderer.elements;
            &&& e.len() == m.renderer.elements.len() + 1
            &&& e.last() matches ElementView::Barcode { hri_position, .. } && {
                &&& n == 1 <==> hri_position == HriPosition::Above
                &&& n == 2 <==> hri_position == HriPosition::Below
                &&& n == 3 <==> hri_position == HriPosition::Both
            }
        }),
{
    let s = seq![0x1Du8, 0x6Bu8, (65 + k) as u8, data.len() as u8] + data;
    let none = Seq::<u8>::empty();
    hri_position_is_set(m, n, s);
    let b = logged(
        Machine {
            renderer: RendererView {
                symbols: SymbolSettings {
                    barcode_hri_position: if n == 1 {
                        HriPosition::Above
                    } else if n == 2 {
                        HriPosition::Below
                    } else if n == 3 {
                        HriPosition::Both
                    } else {
                        HriPosition::Hidden
                    },
                    ..m.renderer.symbols
                },
                ..m.renderer
            },
            ..m
        },
        0x1D,
        0x48,
    );
    assert(s + none =~= s);
    counted_barcode_is_printed(b, k, data.len() as u8, data, none);
    nothing_sent_is_nothing(
        logged(with_printed(b, barcode_now(b, barcode_type_at(k), data)), 0x1D, 0x6B),
    );
}

/// An image behind `ESC a n` stands where `n` says.
pub proof fn image_behind_alignment(m: Machine, n: u8, wide: int, high: int, data: Seq<u8>)
    requires
        m.renderer.pending.len() == 0,
        !m.renderer.in_command,
        m.renderer.line.len() == 0,
        0 < wide <= 1250,
        0 < high <= 10_000,
        data.len() == wide * high,
        data.len() <= 5_000_000,
    ensures
        ({
            let s = seq![
                0x1Du8,
                0x76u8,
                0x30u8,
                0u8,
                (wide % 256) as u8,
                (wide / 256) as u8,
                (high % 256) as u8,
                (high / 256) as u8,
            ] + data;
            let e = feed(m, seq![0x1Bu8, 0x61u8, n] + s).renderer.elements;
            &&& e.len() == m.renderer.elements.len() + 1
            &&& e.last() matches ElementView::RasterImage { alignment, .. } && {
                &&& n == 1 <==> alignment == Alignment::Center
                &&& n == 2 <==> alignment == Alignment::Right
            }
        }),
{
    let s = seq![
        0x1Du8,
        0x76u8,
        0x30u8,
        0u8,
        (wide % 256) as u8,
        (wide / 256) as u8,
        (high % 256) as u8,
        (high / 256) as u8,
    ] + data;
    let none = Seq::<u8>::empty();
    alignment_is_set(m, n, s);
    let b = logged(
        Machine {
            renderer: RendererView {
                state: PrinterState {
                    alignment: if n == 1 {
                        Alignment::Center
                    } else if n == 2 {
                        Alignment::Right
                    } else {
                        Alignment::Left
                    },
                    ..m.renderer.state
                },
                ..m.renderer
            },
            ..m
        },
        0x1B,
        0x61,
    );
    assert(s + none =~= s);
    raster_image_is_printed(b, 0x30, 0, wide, high, data, none);
    let e = ElementView::RasterImage {
        width: 8 * wide,
        height: high,
        data,
        offset: b.renderer.state.horizontal_offset,
        density: b.renderer.state.print_density,
        alignment: b.renderer.state.alignment,
        bytes_per_line: wide,
        print_area_width: b.renderer.state.print_area_width,
    };
    nothing_sent_is_nothing(
        logged(inspected(behind_image(with_printed(b, e)), 8 * wide, high, data), 0x1D, 0x76),
    );
}

/// `GS ( k` 80 stores the data behind its mode byte for PDF417 (48), QR codes (49)
/// or DataMatrix (50), in place of what was stored; the declared length counts
/// three bytes more.
pub proof fn symbol_data_is_stored(
    m: Machine,
    lo: u8,
    hi: u8,
    family: u8,
    mode: u8,
    data: Seq<u8>,
    rest: Seq<u8>,
)
    requires
        m.renderer.pending.len() == 0,
        !m.renderer.in_command,
        48 <= family <= 50,
        data.len() + 3 == lo + 256 * hi || (data.len() == 0 && lo + 256 * hi < 3),
    ensures
        feed(
            m,
            seq![0x1Du8, 0x28u8, 0x6Bu8, lo, hi, family, 80u8, mode] + data + rest,
        ) == feed(
            logged(
                (Machine {
                    renderer: RendererView {
                        pdf417_data: if family == 48 {
                            data
                        } else {
                            m.renderer.pdf417_data
                        },
                        qr_data: if family == 49 {
                            data
                        } else {
                            m.renderer.qr_data
                        },
                        datamatrix_data: if family == 50 {
                            data
                        } else {
                            m.renderer.datamatrix_data
                        },
                        ..m.renderer
                    },
                    ..m
                }),
                0x1D,
                0x28,
            ),
            rest,
        ),
{
    let s = seq![0x1Du8, 0x28u8, 0x6Bu8, lo, hi, family, 80u8, mode] + data;
    let t = s + rest;
    assert(le16(t, 3) == lo + 256 * hi);
    assert(t.subrange(8, 8 + data.len() as int) =~= data);
    lemma_gs_stream();
    lemma_effect(m, s, rest);
}

/// `GS ( k` waits for its header, and for all the data that it stores. It changes
/// nothing until then.
pub proof fn symbol_data_waits(m: Machine, t: Seq<u8>)
    requires
        m.renderer.pending.len() == 0,
        !m.renderer.in_command,
        3 <= t.len(),
        t[0] == 0x1D && t[1] == 0x28 && t[2] == 0x6B,
        t.len() >= 7 ==> 48 <= t[5] <= 50 && t[6] == 80,
        t.len() >= 8 ==> t.len() < 5 + t[3] + 256 * t[4],
    ensures
        feed(m, t) == (Machine {
            renderer: RendererView { pending: t, in_command: true, ..m.renderer },
            ..m
        }),
{
    lemma_gs_stream();
    assert(m.renderer.pending + t =~= t);
}

/// The bytes of a `GS ( k` command without a fixed number of parameters: as many
/// as declared, or what is there at the end of the stream.
pub open spec fn all_parameters(lo: u8, hi: u8, params: Seq<u8>, rest: Seq<u8>) -> bool {
    ||| params.len() + 2 == lo + 256 * hi
    ||| params.len() == 0 && lo + 256 * hi < 2
    ||| params.len() + 2 < lo + 256 * hi && rest.len() == 0
}

/// `GS ( k` 49 81 prints the stored QR code with modules of one to 16 dots and
/// forgets it; `GS ( k` 48 82 and 50 82 print the stored PDF417 and DataMatrix
/// symbols and forget them. With nothing stored, nothing is printed. A line that
/// is under way is printed first.
#[verifier::rlimit(40)]
pub proof fn stored_symbol_is_printed(
    m: Machine,
    lo: u8,
    hi: u8,
    family: u8,
    params: Seq<u8>,
    rest: Seq<u8>,
)
    requires
        m.renderer.pending.len() == 0,
        !m.renderer.in_command,
        48 <= family <= 50,
        all_parameters(lo, hi, params, rest),
    ensures
        ({
            let function = if family == 49 {
                81u8
            } else {
                82u8
            };
            let s = seq![0x1Du8, 0x28u8, 0x6Bu8, lo, hi, family, function] + params;
            let r = m.renderer;
            let stored = if family == 48 {
                r.pdf417_data
            } else if family == 49 {
                r.qr_data
            } else {
                r.datamatrix_data
            };
            let size = r.symbols.qr_size;
            let e = if family == 49 {
                ElementView::QrCode {
                    data: utf8_text(stored),
                    size: if size == 0 {
                        1
                    } else if size > 16 {
                        16
                    } else {
                        size as int
                    },
                    alignment: r.state.alignment,
                    offset: r.state.horizontal_offset,
                    print_area_width: r.state.print_area_width,
                }
            } else {
                ElementView::Barcode2D {
                    data: stored,
                    variant: if family == 48 {
                        Barcode2DVariant::Pdf417
                    } else {
                        Barcode2DVariant::DataMatrix
                    },
                    module_size: if family == 48 {
                        r.symbols.pdf417_module_width
                    } else {
                        r.symbols.datamatrix_module_size
                    },
                    alignment: r.state.alignment,
                    offset: r.state.horizontal_offset,
                    print_area_width: r.state.print_area_width,
                }
            };
            let p = with_printed(m, e);
            let forgotten = Machine {
                renderer: RendererView {
                    pdf417_data: if family == 48 {
                        Seq::empty()
                    } else {
                        r.pdf417_data
                    },
                    qr_data: if family == 49 {
                        Seq::empty()
                    } else {
                        r.qr_data
                    },
                    datamatrix_data: if family == 50 {
                        Seq::empty()
                    } else {
                        r.datamatrix_data
                    },
                    ..p.renderer
                },
                ..p
            };
            if stored.len() == 0 {
                feed(m, s + rest) == feed(logged(m, 0x1D, 0x28), rest)
            } else {
                &&& r.line.len() == 0 ==> feed(m, s + rest) == feed(
                    logged(forgotten, 0x1D, 0x28),
                    rest,
                )
                &&& feed(m, s + rest) == feed(line_printed(m), s + rest)
            }
        }),
{
    let function = if family == 49 {
        81u8
    } else {
        82u8
    };
    let s = seq![0x1Du8, 0x28u8, 0x6Bu8, lo, hi, family, function] + params;
    let t = s + rest;
    let r = m.renderer;
    assert(le16(t, 3) == lo + 256 * hi);
    assert(span(t) == Span::Ends(s.len() as int)) by {
        lemma_gs_stream();
    }
    let c = if family == 48 {
        Command::PrintPdf417
    } else if family == 49 {
        Command::PrintQr
    } else {
        Command::PrintDataMatrix
    };
    assert(command(t) == c) by {
        lemma_gs_stream();
    }
    assert(r.pdf417_data.len() == 0 ==> r.pdf417_data =~= Seq::empty());
    assert(r.qr_data.len() == 0 ==> r.qr_data =~= Seq::empty());
    assert(r.datamatrix_data.len() == 0 ==> r.datamatrix_data =~= Seq::empty());
    lemma_finished_twice(r);
    let stored = if family == 48 {
        r.pdf417_data
    } else if family == 49 {
        r.qr_data
    } else {
        r.datamatrix_data
    };
    if stored.len() == 0 {
        lemma_effect(m, s, rest);
    } else {
        if r.line.len() == 0 {
            lemma_empty_line(r);
            lemma_effect(m, s, rest);
        }
        lemma_line_first(m, t);
    }
}

/// Every other function of `GS ( k` is taken with its parameters and does nothing.
pub proof fn other_symbol_functions_do_nothing(
    m: Machine,
    lo: u8,
    hi: u8,
    family: u8,
    function: u8,
    params: Seq<u8>,
    rest: Seq<u8>,
)
    requires
        m.renderer.pending.len() == 0,
        !m.renderer.in_command,
        family == 48 ==> function < 65 || 70 < function < 80 || function == 81 || 82 < function,
        family == 49 ==> function != 67 && function != 69 && function != 80 && function != 81,
        family == 50 ==> function != 65 && function != 67 && function != 80 && function != 82,
        all_parameters(lo, hi, params, rest),
    ensures
        feed(
            m,
            seq![0x1Du8, 0x28u8, 0x6Bu8, lo, hi, family, function] + params + rest,
        ) == feed(logged(m, 0x1D, 0x28), rest),
{
    let s = seq![0x1Du8, 0x28u8, 0x6Bu8, lo, hi, family, function] + params;
    let t = s + rest;
    assert(le16(t, 3) == lo + 256 * hi);
    lemma_gs_stream();
    lemma_effect(m, s, rest);
}

/// A function of `GS ( k` that sets something does nothing where its parameter is
/// missing.
pub proof fn missing_symbol_setting(m: Machine, lo: u8, hi: u8, family: u8, function: u8)
    requires
        m.renderer.pending.len() == 0,
        !m.renderer.in_command,
        (family == 48 && 65 <= function <= 70) || (family == 49 && (function == 67 || function
            == 69)) || (family == 50 && (function == 65 || function == 67)),
    ensures
        feed(m, seq![0x1Du8, 0x28u8, 0x6Bu8, lo, hi, family, function]) == logged(m, 0x1D, 0x28),
{
    let s = seq![0x1Du8, 0x28u8, 0x6Bu8, lo, hi, family, function];
    let e = Seq::<u8>::empty();
    assert(s + e =~= s);
    lemma_gs_stream();
    lemma_effect(m, s, e);
    nothing_sent_is_nothing(logged(m, 0x1D, 0x28));
}

/// `GS V m` behind bytes of a line prints the line as a line end does, cuts, and
/// keeps the bytes.
pub proof fn cut_prints_line_first(m: Machine, n: u8, rest: Seq<u8>)
    requires
        m.renderer.pending.len() == 0,
        !m.renderer.in_command,
    ensures
        ({
            let cut = feed(line_printed(m), seq![0x1Du8, 0x56u8, n]);
            feed(m, seq![0x1Du8, 0x56u8, n] + rest) == feed(
                (Machine {
                    renderer: RendererView { line: m.renderer.line, ..cut.renderer },
                    ..cut
                }),
                rest,
            )
        }),
{
    let s = seq![0x1Du8, 0x56u8, n];
    let e = Seq::<u8>::empty();
    let p = line_printed(m);
    lemma_line_printed(m);
    lemma_gs_stream();
    assert(s + e =~= s);
    lemma_effect(m, s, rest);
    lemma_effect(p, s, e);
    nothing_sent_is_nothing(
        logged(
            Machine { renderer: apply(p.renderer, m.device, Command::Cut(n)), ..m },
            0x1D,
            0x56,
        ),
    );
}

/// `ESC J` behind bytes of a line prints the line first, as a line end does.
pub proof fn fed_dots_print_line_first(m: Machine, n: u8, rest: Seq<u8>)
    requires
        m.renderer.pending.len() == 0,
        !m.renderer.in_command,
    ensures
        feed(m, seq![0x1Bu8, 0x4Au8, n] + rest) == feed(
            line_printed(m),
            seq![0x1Bu8, 0x4Au8, n] + rest,
        ),
{
    let t = seq![0x1Bu8, 0x4Au8, n] + rest;
    lemma_esc_stream();
    lemma_finished_twice(m.renderer);
    lemma_line_first(m, t);
}

} // verus!
