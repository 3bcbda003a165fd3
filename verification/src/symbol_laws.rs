//! What the printer promises of barcodes and two-dimensional symbols.

use vstd::prelude::*;
use crate::chunking::whole;
use crate::codepage::utf8_text;
use crate::codes::{
    GS, GS_BARCODE, GS_EXTENDED, GS_PAREN_SYMBOL, SYMBOL_DATAMATRIX, SYMBOL_PDF417, SYMBOL_QR,
    clamp_u8, le16,
};
use crate::element::{Barcode2DVariant, ElementView};
use crate::framing::{
    Span, counted_system, lemma_nul_at, nul_at, nul_terminated_system, span, stored_bytes,
    symbol_stores,
};
use crate::laws::{lemma_logged_command, logged, waiting_command_may_be_cut};
use crate::model::{
    Command, Machine, RendererView, barcode_type_of, command, feed, finish_line, is_logged,
};

verus! {

/// `GS ( k` that stores data for a symbol family.
pub open spec fn store_symbol_bytes(family: u8, mode: u8, data: Seq<u8>) -> Seq<u8> {
    let n = data.len() + 3;
    seq![GS, GS_EXTENDED, GS_PAREN_SYMBOL, (n % 256) as u8, (n / 256) as u8, family, 80, mode]
        + data
}

/// `GS ( k` that prints the stored symbol of a family.
pub open spec fn print_symbol_bytes(family: u8, mode: u8) -> Seq<u8> {
    seq![
        GS,
        GS_EXTENDED,
        GS_PAREN_SYMBOL,
        3,
        0,
        family,
        if family == SYMBOL_QR {
            81u8
        } else {
            82u8
        },
        mode,
    ]
}

proof fn lemma_store_command(family: u8, mode: u8, data: Seq<u8>)
    requires
        family == SYMBOL_PDF417 || family == SYMBOL_QR || family == SYMBOL_DATAMATRIX,
        data.len() + 3 <= 0xFFFF,
    ensures
        span(store_symbol_bytes(family, mode, data)) == Span::Ends(8 + data.len() as int),
        command(store_symbol_bytes(family, mode, data)) == (Command::StoreSymbol { family, data }),
{
    let s = store_symbol_bytes(family, mode, data);
    reveal(span);
    reveal(command);
    assert(le16(s, 3) == data.len() + 3);
    assert(s.subrange(8, 8 + data.len() as int) =~= data);
}

proof fn lemma_print_command(family: u8, mode: u8)
    requires
        family == SYMBOL_PDF417 || family == SYMBOL_QR || family == SYMBOL_DATAMATRIX,
    ensures
        span(print_symbol_bytes(family, mode)) == Span::Ends(8),
        command(print_symbol_bytes(family, mode)) == (if family == SYMBOL_PDF417 {
            Command::PrintPdf417
        } else if family == SYMBOL_QR {
            Command::PrintQr
        } else {
            Command::PrintDataMatrix
        }),
{
    reveal(span);
    reveal(command);
}

/// The element that a stored symbol is printed as, behind the current line.
pub open spec fn symbol_element(r: RendererView, family: u8, data: Seq<u8>) -> ElementView {
    let f = finish_line(r);
    if family == SYMBOL_QR {
        ElementView::QrCode {
            data: utf8_text(data),
            size: clamp_u8(f.symbols.qr_size, 1, 16) as int,
            alignment: f.state.alignment,
            offset: f.state.horizontal_offset,
            print_area_width: f.state.print_area_width,
        }
    } else {
        ElementView::Barcode2D {
            data,
            variant: if family == SYMBOL_PDF417 {
                Barcode2DVariant::Pdf417
            } else {
                Barcode2DVariant::DataMatrix
            },
            module_size: if family == SYMBOL_PDF417 {
                f.symbols.pdf417_module_width
            } else {
                f.symbols.datamatrix_module_size
            },
            alignment: f.state.alignment,
            offset: f.state.horizontal_offset,
            print_area_width: f.state.print_area_width,
        }
    }
}

/// The data stored for a symbol family.
pub open spec fn stored_data(r: RendererView, family: u8) -> Seq<u8> {
    if family == SYMBOL_PDF417 {
        r.pdf417_data
    } else if family == SYMBOL_QR {
        r.qr_data
    } else {
        r.datamatrix_data
    }
}

proof fn lemma_store(m: Machine, s: Seq<u8>, family: u8, data: Seq<u8>)
    requires
        m.renderer.pending.len() == 0,
        s.len() > 1,
        is_logged(s[0]),
        span(s) == Span::Ends(s.len() as int),
        command(s) == (Command::StoreSymbol { family, data }),
    ensures
        feed(m, s).renderer.pending.len() == 0,
        stored_data(feed(m, s).renderer, family) == data,
        feed(m, s).renderer.elements == m.renderer.elements,
        finish_line(feed(m, s).renderer).elements == finish_line(m.renderer).elements,
        symbol_element(feed(m, s).renderer, family, data) == symbol_element(
            m.renderer,
            family,
            data,
        ),
{
    lemma_logged_command(m, s, Command::StoreSymbol { family, data });
}

proof fn lemma_print_stored(m: Machine, family: u8, mode: u8)
    requires
        m.renderer.pending.len() == 0,
        family == SYMBOL_PDF417 || family == SYMBOL_QR || family == SYMBOL_DATAMATRIX,
        stored_data(m.renderer, family).len() > 0,
    ensures
        ({
            let printed = feed(m, print_symbol_bytes(family, mode)).renderer;
            &&& printed.pending.len() == 0
            &&& !printed.in_command
            &&& stored_data(printed, family).len() == 0
            &&& printed.elements == finish_line(m.renderer).elements.push(
                symbol_element(m.renderer, family, stored_data(m.renderer, family)),
            )
        }),
{
    lemma_print_command(family, mode);
    lemma_logged_command(m, print_symbol_bytes(family, mode), command(print_symbol_bytes(family, mode)));
}

proof fn lemma_print_nothing(m: Machine, family: u8, mode: u8)
    requires
        m.renderer.pending.len() == 0,
        !m.renderer.in_command,
        family == SYMBOL_PDF417 || family == SYMBOL_QR || family == SYMBOL_DATAMATRIX,
        stored_data(m.renderer, family).len() == 0,
    ensures
        feed(m, print_symbol_bytes(family, mode)) == logged(m, GS, GS_EXTENDED),
{
    lemma_print_command(family, mode);
    lemma_logged_command(m, print_symbol_bytes(family, mode), command(print_symbol_bytes(family, mode)));
    assert(m.renderer.pending =~= Seq::empty());
    assert(stored_data(m.renderer, family) =~= Seq::empty());
}

/// Data stored for a symbol is printed by the next print command, behind the
/// current line, and only once: another print command prints nothing.
pub proof fn stored_symbol_prints_once(
    m: Machine,
    family: u8,
    mode: u8,
    print_mode: u8,
    data: Seq<u8>,
)
    requires
        m.renderer.pending.len() == 0,
        family == SYMBOL_PDF417 || family == SYMBOL_QR || family == SYMBOL_DATAMATRIX,
        0 < data.len(),
        data.len() + 3 <= 0xFFFF,
    ensures
        ({
            let stored = feed(m, store_symbol_bytes(family, mode, data));
            let printed = feed(stored, print_symbol_bytes(family, print_mode));
            let again = feed(printed, print_symbol_bytes(family, print_mode));
            &&& stored.renderer.elements == m.renderer.elements
            &&& printed.renderer.elements == finish_line(m.renderer).elements.push(
                symbol_element(m.renderer, family, data),
            )
            &&& again == logged(printed, GS, GS_EXTENDED)
        }),
{
    lemma_store_command(family, mode, data);
    lemma_store(m, store_symbol_bytes(family, mode, data), family, data);
    let stored = feed(m, store_symbol_bytes(family, mode, data));
    lemma_print_stored(stored, family, print_mode);
    let printed = feed(stored, print_symbol_bytes(family, print_mode));
    lemma_print_nothing(printed, family, print_mode);
}

/// Printing a symbol uses its data up, whatever was stored: a second print
/// command changes nothing but the log.
pub proof fn second_print_is_nothing(m: Machine, family: u8, mode: u8)
    requires
        m.renderer.pending.len() == 0,
        family == SYMBOL_PDF417 || family == SYMBOL_QR || family == SYMBOL_DATAMATRIX,
    ensures
        ({
            let p = print_symbol_bytes(family, mode);
            feed(feed(m, p), p) == logged(feed(m, p), GS, GS_EXTENDED)
        }),
{
    let p = print_symbol_bytes(family, mode);
    lemma_print_command(family, mode);
    if stored_data(m.renderer, family).len() > 0 {
        lemma_print_stored(m, family, mode);
    } else {
        lemma_print_empty(m, family, mode);
    }
    lemma_print_nothing(feed(m, p), family, mode);
}

proof fn lemma_print_empty(m: Machine, family: u8, mode: u8)
    requires
        m.renderer.pending.len() == 0,
        family == SYMBOL_PDF417 || family == SYMBOL_QR || family == SYMBOL_DATAMATRIX,
        stored_data(m.renderer, family).len() == 0,
    ensures
        ({
            let printed = feed(m, print_symbol_bytes(family, mode)).renderer;
            &&& printed.pending.len() == 0
            &&& !printed.in_command
            &&& stored_data(printed, family).len() == 0
        }),
{
    let p = print_symbol_bytes(family, mode);
    lemma_print_command(family, mode);
    lemma_logged_command(m, p, command(p));
}

/// Data for a symbol may arrive in two pieces, cut anywhere but right behind
/// `GS (`.
pub proof fn stored_symbol_may_be_cut(m: Machine, family: u8, mode: u8, data: Seq<u8>, k: int)
    requires
        m.renderer.pending.len() == 0,
        family == SYMBOL_PDF417 || family == SYMBOL_QR || family == SYMBOL_DATAMATRIX,
        data.len() + 3 <= 0xFFFF,
        0 <= k <= 8 + data.len(),
        k != 2,
    ensures
        ({
            let s = store_symbol_bytes(family, mode, data);
            feed(feed(m, s.take(k)), s.skip(k)) == feed(m, s)
        }),
{
    let s = store_symbol_bytes(family, mode, data);
    lemma_store_command(family, mode, data);
    assert(le16(s, 3) == data.len() + 3);
    if 0 < k < s.len() {
        lemma_store_waits(s, k);
    }
    assert(whole(s)) by {
        reveal(whole);
    }
    waiting_command_may_be_cut(m, s, k);
}

proof fn lemma_store_waits(s: Seq<u8>, k: int)
    requires
        0 < k < s.len(),
        k != 2,
        s.len() >= 8,
        s[0] == GS,
        s[1] == GS_EXTENDED,
        s[2] == GS_PAREN_SYMBOL,
        symbol_stores(s[5], s[6]),
        s.len() == 8 + stored_bytes(s),
    ensures
        span(s.take(k)) is Incomplete,
{
    reveal(span);
    let first = s.take(k);
    if k >= 7 {
        assert(le16(first, 3) == le16(s, 3));
    }
}

/// What is printed for a barcode, behind the current line.
pub open spec fn barcode_element(r: RendererView, m: u8, data: Seq<u8>) -> ElementView {
    let f = finish_line(r);
    ElementView::Barcode {
        data,
        barcode_type: barcode_type_of(m),
        height: f.symbols.barcode_height,
        module_width: f.symbols.barcode_module_width,
        hri_position: f.symbols.barcode_hri_position,
        alignment: f.state.alignment,
        offset: f.state.horizontal_offset,
        print_area_width: f.state.print_area_width,
    }
}

/// `GS k` with counted data.
pub open spec fn counted_barcode_bytes(system: u8, data: Seq<u8>) -> Seq<u8> {
    seq![GS, GS_BARCODE, system, data.len() as u8] + data
}

/// `GS k` with data that ends with NUL.
pub open spec fn terminated_barcode_bytes(system: u8, data: Seq<u8>) -> Seq<u8> {
    seq![GS, GS_BARCODE, system] + data + seq![0u8]
}

proof fn lemma_counted_command(system: u8, data: Seq<u8>)
    requires
        counted_system(system),
        0 < data.len() <= 255,
    ensures
        ({
            let s = counted_barcode_bytes(system, data);
            &&& s.len() == 4 + data.len()
            &&& span(s) == Span::Ends(s.len() as int)
            &&& command(s) == (Command::Barcode { barcode_type: barcode_type_of(system), data })
        }),
{
    let s = counted_barcode_bytes(system, data);
    assert(s.subrange(4, 4 + data.len() as int) =~= data);
    reveal(span);
    reveal(command);
}

proof fn lemma_terminated_command(system: u8, data: Seq<u8>)
    requires
        nul_terminated_system(system),
        0 < data.len(),
        forall|k: int| 0 <= k < data.len() ==> #[trigger] data[k] != 0,
    ensures
        ({
            let s = terminated_barcode_bytes(system, data);
            &&& s.len() == 4 + data.len()
            &&& span(s) == Span::Ends(s.len() as int)
            &&& command(s) == (Command::Barcode { barcode_type: barcode_type_of(system), data })
        }),
{
    let s = terminated_barcode_bytes(system, data);
    assert(s.subrange(3, 3 + data.len() as int) =~= data);
    assert(nul_at(s, 3) == 3 + data.len()) by {
        lemma_nul_at(s, 3);
        let e = nul_at(s, 3);
        assert(s[3 + data.len() as int] == 0);
        if e < 3 + data.len() {
            assert(s[e] == data[e - 3]);
        }
    }
    reveal(span);
    reveal(command);
}

/// A barcode with counted data prints exactly that data.
pub proof fn counted_barcode_prints(m: Machine, system: u8, data: Seq<u8>)
    requires
        m.renderer.pending.len() == 0,
        counted_system(system),
        0 < data.len() <= 255,
    ensures
        feed(m, counted_barcode_bytes(system, data)).renderer.elements == finish_line(
            m.renderer,
        ).elements.push(barcode_element(m.renderer, system, data)),
{
    let s = counted_barcode_bytes(system, data);
    lemma_counted_command(system, data);
    lemma_logged_command(m, s, command(s));
}

/// A barcode whose data ends with NUL prints the data before it.
pub proof fn terminated_barcode_prints(m: Machine, system: u8, data: Seq<u8>)
    requires
        m.renderer.pending.len() == 0,
        nul_terminated_system(system),
        0 < data.len(),
        forall|k: int| 0 <= k < data.len() ==> #[trigger] data[k] != 0,
    ensures
        feed(m, terminated_barcode_bytes(system, data)).renderer.elements == finish_line(
            m.renderer,
        ).elements.push(barcode_element(m.renderer, system, data)),
{
    let s = terminated_barcode_bytes(system, data);
    lemma_terminated_command(system, data);
    lemma_logged_command(m, s, command(s));
}

/// The two forms of a barcode do the same, for the systems that have both.
pub proof fn barcode_forms_agree(m: Machine, system: u8, data: Seq<u8>)
    requires
        m.renderer.pending.len() == 0,
        nul_terminated_system(system),
        0 < data.len() <= 255,
        forall|k: int| 0 <= k < data.len() ==> #[trigger] data[k] != 0,
    ensures
        feed(m, terminated_barcode_bytes(system, data)) == feed(
            m,
            counted_barcode_bytes((system + 65) as u8, data),
        ),
{
    let a = terminated_barcode_bytes(system, data);
    let b = counted_barcode_bytes((system + 65) as u8, data);
    lemma_terminated_command(system, data);
    lemma_counted_command((system + 65) as u8, data);
    assert(barcode_type_of((system + 65) as u8) == barcode_type_of(system));
    lemma_logged_command(m, a, command(a));
    lemma_logged_command(m, b, command(b));
}

} // verus!
