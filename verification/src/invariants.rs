//! What every stream keeps, as long as no command overruns it.

use vstd::prelude::*;
use crate::codepage::{line_text, utf8_text};
use crate::codes::{
    ESC, ESC_BIT_IMAGE, ESC_FEED_LINES, FS, FS_DEFINE_NV, GS, GS_BARCODE_HEIGHT, GS_HRI,
    GS_MODULE_WIDTH, ceil_div, clamp_u8, le16, opens_command,
};
use crate::element::{Barcode2DVariant, ElementView};
use crate::framing::{
    MAX_SYMBOL_BYTES, Span, column_height, column_image_valid, esc_span, esc_span_bounds, gs_span,
    gs_span_bounds, leftover, lemma_nul_at, lemma_product16, nv_bytes, nv_image_end, span,
    span_bounds, well_framed,
};
use crate::model::{
    Command, Machine, RendererView, apply, apply_device, command, cut_name, esc_command, feed,
    feed_line, feed_lines, finish_line, fresh_renderer, gs_command, hri_of, image_element,
    print_element, print_image, print_line, print_qr, print_symbol, run, separators,
    separators_for, step,
};
use crate::state::{
    DeviceView, LogEntryView, NvImageView, PrinterState, PrinterStatus, Setting, SymbolSetting,
    SymbolSettings, nv_image, nv_table, text_element, with_setting, with_symbol_setting,
};

verus! {

/// The bytes of an image are as many as its rows need, and no row is wider than
/// its bytes.
pub open spec fn image_wf(width: int, height: int, bytes_per_line: int, data: Seq<u8>) -> bool {
    &&& 0 <= width <= 8 * bytes_per_line
    &&& 0 <= height
    &&& data.len() == bytes_per_line * height
}

pub open spec fn element_wf(e: ElementView) -> bool {
    match e {
        ElementView::Text { density, .. } => density <= 8,
        ElementView::RasterImage { width, height, data, density, bytes_per_line, .. } => {
            &&& density <= 8
            &&& image_wf(width, height, bytes_per_line, data)
        },
        ElementView::QrCode { size, .. } => 1 <= size <= 16,
        ElementView::Barcode { data, height, module_width, .. } => {
            &&& data.len() > 0
            &&& 1 <= height
            &&& 1 <= module_width <= 6
        },
        ElementView::Barcode2D { data, module_size, .. } => {
            &&& data.len() > 0
            &&& 1 <= module_size <= 8
        },
        _ => true,
    }
}

/// Every element is well formed, and no form feed follows another.
#[verifier::opaque]
pub open spec fn elements_wf(elements: Seq<ElementView>) -> bool {
    &&& forall|k: int| 0 <= k < elements.len() ==> element_wf(#[trigger] elements[k])
    &&& forall|k: int|
        0 <= k < elements.len() - 1 && #[trigger] elements[k] is FormFeed ==> !(elements[k
            + 1] is FormFeed)
}

pub open spec fn symbols_wf(symbols: SymbolSettings) -> bool {
    &&& 1 <= symbols.barcode_height
    &&& 1 <= symbols.barcode_module_width <= 6
    &&& 1 <= symbols.pdf417_module_width <= 8
    &&& 1 <= symbols.datamatrix_module_size <= 8
}

/// The settings are in their ranges.
pub open spec fn settings_wf(r: RendererView) -> bool {
    &&& r.state.print_density <= 8
    &&& symbols_wf(r.symbols)
}

/// What holds of a renderer apart from the bytes that it keeps.
pub open spec fn renderer_wf(r: RendererView) -> bool {
    &&& settings_wf(r)
    &&& elements_wf(r.elements)
    &&& r.qr_data.len() <= MAX_SYMBOL_BYTES
    &&& r.pdf417_data.len() <= MAX_SYMBOL_BYTES
    &&& r.datamatrix_data.len() <= MAX_SYMBOL_BYTES
}

/// An NV image is not empty, and its rows are whole bytes.
pub open spec fn nv_image_wf(image: NvImageView) -> bool {
    &&& image.data.len() > 0
    &&& image_wf(image.width, image.height, ceil_div(image.width, 8), image.data)
}

pub open spec fn nv_images_wf(images: Map<u8, NvImageView>) -> bool {
    forall|slot: u8| #[trigger] images.contains_key(slot) ==> nv_image_wf(images[slot])
}

pub open spec fn device_wf(d: DeviceView) -> bool {
    nv_images_wf(d.nv_images)
}

/// A command is under way only where the next byte opens it.
pub open spec fn waits_for(in_command: bool, rest: Seq<u8>) -> bool {
    in_command ==> rest.len() > 0 && opens_command(rest[0])
}

/// Bytes wait only where the command that they start is not complete, and a
/// command is under way exactly where they start with its opening byte.
pub open spec fn waiting_wf(in_command: bool, pending: Seq<u8>) -> bool {
    &&& pending.len() > 0 ==> span(pending) is Incomplete
    &&& in_command == (pending.len() > 0 && opens_command(pending[0]))
}

/// The invariant of the printer.
pub open spec fn machine_wf(m: Machine) -> bool {
    &&& renderer_wf(m.renderer)
    &&& waiting_wf(m.renderer.in_command, m.renderer.pending)
    &&& device_wf(m.device)
}

/// What holds of every command that can be read from bytes.
pub open spec fn command_wf(c: Command) -> bool {
    match c {
        Command::Format(Setting::Density(n)) => n <= 8,
        Command::Symbol(SymbolSetting::BarcodeHeight(n)) => 1 <= n,
        Command::Symbol(SymbolSetting::BarcodeModuleWidth(n)) => 1 <= n <= 6,
        Command::Barcode { data, .. } => data.len() > 0,
        Command::Image { width, height, bytes_per_line, data, .. } => image_wf(
            width,
            height,
            bytes_per_line,
            data,
        ),
        Command::StoreSymbol { data, .. } => data.len() <= MAX_SYMBOL_BYTES,
        Command::DefineNv(images) => nv_images_wf(images),
        _ => true,
    }
}

proof fn lemma_nv_table_wf(
    images: Map<u8, NvImageView>,
    s: Seq<u8>,
    pos: int,
    slot: int,
    count: nat,
)
    requires
        nv_images_wf(images),
        0 <= pos <= s.len(),
    ensures
        nv_images_wf(nv_table(images, s, pos, slot, count)),
    decreases count,
{
    if count > 0 && pos + 4 <= s.len() {
        lemma_product16(le16(s, pos), le16(s, pos + 2));
        let next = if 0 < nv_bytes(s, pos) && pos + 4 + nv_bytes(s, pos) <= s.len() {
            images.insert(slot as u8, nv_image(s, pos))
        } else {
            images
        };
        lemma_nv_table_wf(next, s, nv_image_end(s, pos), slot + 1, (count - 1) as nat);
    }
}

/// A complete GS command is well formed.
pub proof fn gs_command_is_wf(s: Seq<u8>)
    requires
        s.len() >= 2,
        gs_span(s) is Ends,
    ensures
        command_wf(gs_command(s)),
{
    gs_span_bounds(s);
    if s.len() >= 8 {
        lemma_product16(le16(s, 4), le16(s, 6));
    }
    if s.len() >= 17 {
        lemma_product16(ceil_div(le16(s, 13), 8), le16(s, 15));
    }
    if s.len() >= 3 {
        lemma_nul_at(s, 3);
    }
}

/// Whatever complete bytes are read give a well-formed command.
pub proof fn command_is_wf(s: Seq<u8>)
    requires
        s.len() > 0,
        span(s) is Ends,
    ensures
        command_wf(command(s)),
{
    reveal(span);
    reveal(command);
    if s[0] == ESC {
        if s[1] == ESC_BIT_IMAGE && column_image_valid(s) {
            let width = le16(s, 3);
            let height = column_height(s[2]);
            assert(0 <= ceil_div(width, 8) * height) by (nonlinear_arith)
                requires
                    0 <= ceil_div(width, 8),
                    0 <= height,
            ;
        }
    } else if s[0] == GS {
        gs_command_is_wf(s);
    } else if s[0] == FS && s[1] == FS_DEFINE_NV && s.len() >= 3 {
        lemma_nv_table_wf(Map::empty(), s, 3, 1, s[2] as nat);
    }
}

proof fn lemma_push_wf(elements: Seq<ElementView>, e: ElementView)
    requires
        elements_wf(elements),
        element_wf(e),
        e is FormFeed ==> elements.len() == 0 || !(elements.last() is FormFeed),
    ensures
        elements_wf(elements.push(e)),
{
    reveal(elements_wf);
}

proof fn lemma_print_line_wf(r: RendererView)
    requires
        renderer_wf(r),
    ensures
        renderer_wf(print_line(r)),
        renderer_wf(finish_line(r)),
        finish_line(r).line.len() == 0,
{
    lemma_push_wf(
        r.elements,
        text_element(r.state, line_text(r.state.code_page, r.state.encoding, r.line)),
    );
}

proof fn lemma_feed_lines_wf(r: RendererView, n: nat)
    requires
        renderer_wf(r),
    ensures
        renderer_wf(feed_lines(r, n)),
        feed_lines(r, n).line.len() <= r.line.len(),
        feed_lines(r, n).in_command == r.in_command,
    decreases n,
{
    if n > 0 {
        lemma_print_line_wf(r);
        lemma_push_wf(r.elements, ElementView::Separator);
        lemma_feed_lines_wf(feed_line(r), (n - 1) as nat);
    }
}

proof fn lemma_separators_wf(elements: Seq<ElementView>, n: nat)
    requires
        elements_wf(elements),
    ensures
        elements_wf(elements + separators(n)),
    decreases n,
{
    if n == 0 {
        assert(elements + separators(n) =~= elements);
    } else {
        lemma_separators_wf(elements, (n - 1) as nat);
        lemma_push_wf(elements + separators((n - 1) as nat), ElementView::Separator);
        assert(elements + separators(n) =~= (elements + separators((n - 1) as nat)).push(
            ElementView::Separator,
        ));
    }
}

proof fn lemma_print_element_wf(r: RendererView, e: ElementView)
    requires
        renderer_wf(r),
        element_wf(e),
        !(e is FormFeed),
    ensures
        renderer_wf(print_element(r, e)),
{
    lemma_push_wf(r.elements, e);
}

proof fn lemma_setting_wf(state: PrinterState, setting: Setting)
    requires
        state.print_density <= 8,
        command_wf(Command::Format(setting)),
    ensures
        with_setting(state, setting).print_density <= 8,
{
}

proof fn lemma_symbol_setting_wf(symbols: SymbolSettings, setting: SymbolSetting)
    requires
        symbols_wf(symbols),
        command_wf(Command::Symbol(setting)),
    ensures
        symbols_wf(with_symbol_setting(symbols, setting)),
{
}

proof fn lemma_print_symbol_wf(
    r: RendererView,
    data: Seq<u8>,
    variant: Barcode2DVariant,
    module_size: u8,
)
    requires
        renderer_wf(r),
        1 <= module_size <= 8,
    ensures
        renderer_wf(print_symbol(r, data, variant, module_size)),
        print_symbol(r, data, variant, module_size).line.len() <= r.line.len(),
{
    if data.len() > 0 {
        let f = finish_line(r);
        lemma_print_line_wf(r);
        lemma_print_element_wf(
            f,
            ElementView::Barcode2D {
                data,
                variant,
                module_size,
                alignment: f.state.alignment,
                offset: f.state.horizontal_offset,
                print_area_width: f.state.print_area_width,
            },
        );
    }
}

proof fn lemma_print_qr_wf(r: RendererView)
    requires
        renderer_wf(r),
    ensures
        renderer_wf(print_qr(r)),
        print_qr(r).line.len() <= r.line.len(),
{
    if r.qr_data.len() > 0 {
        let f = finish_line(r);
        lemma_print_line_wf(r);
        lemma_print_element_wf(
            f,
            ElementView::QrCode {
                data: utf8_text(r.qr_data),
                size: clamp_u8(r.symbols.qr_size, 1, 16) as int,
                alignment: f.state.alignment,
                offset: f.state.horizontal_offset,
                print_area_width: f.state.print_area_width,
            },
        );
    }
}

proof fn lemma_print_image_wf(
    r: RendererView,
    width: int,
    height: int,
    bytes_per_line: int,
    data: Seq<u8>,
)
    requires
        renderer_wf(r),
        image_wf(width, height, bytes_per_line, data),
    ensures
        renderer_wf(print_image(r, width, height, bytes_per_line, data)),
        print_image(r, width, height, bytes_per_line, data).line.len() == 0,
{
    let f = finish_line(r);
    lemma_print_line_wf(r);
    lemma_print_element_wf(f, image_element(f.state, width, height, bytes_per_line, data));
}

proof fn lemma_feed_lines_keep_settings(r: RendererView, n: nat)
    ensures
        feed_lines(r, n).symbols == r.symbols,
        feed_lines(r, n).state.print_density == r.state.print_density,
    decreases n,
{
    if n > 0 {
        lemma_feed_lines_keep_settings(feed_line(r), (n - 1) as nat);
    }
}

/// The symbol settings and the density are the same.
pub open spec fn same_settings(a: RendererView, b: RendererView) -> bool {
    &&& b.symbols == a.symbols
    &&& b.state.print_density == a.state.print_density
}

proof fn lemma_print_keeps_settings(r: RendererView, e: ElementView)
    ensures
        same_settings(r, print_line(r)),
        same_settings(r, finish_line(r)),
        same_settings(r, feed_line(r)),
        same_settings(r, print_element(finish_line(r), e)),
{
}

proof fn lemma_symbol_keeps_settings(
    r: RendererView,
    data: Seq<u8>,
    variant: Barcode2DVariant,
    module_size: u8,
)
    ensures
        same_settings(r, print_symbol(r, data, variant, module_size)),
        same_settings(r, print_qr(r)),
{
    lemma_print_keeps_settings(r, ElementView::Separator);
}

/// A well-formed command keeps the settings in their ranges, whatever else holds
/// of the renderer.
#[verifier::rlimit(30)]
pub proof fn apply_keeps_settings(r: RendererView, d: DeviceView, c: Command)
    requires
        settings_wf(r),
        command_wf(c),
    ensures
        settings_wf(apply(r, d, c)),
{
    match c {
        Command::Format(setting) => {
            lemma_setting_wf(r.state, setting);
        },
        Command::Symbol(setting) => {
            lemma_symbol_setting_wf(r.symbols, setting);
        },
        Command::FeedLines(n) => {
            lemma_feed_lines_keep_settings(r, n as nat);
        },
        Command::PrintPdf417 => {
            lemma_symbol_keeps_settings(
                r,
                r.pdf417_data,
                Barcode2DVariant::Pdf417,
                r.symbols.pdf417_module_width,
            );
        },
        Command::PrintDataMatrix => {
            lemma_symbol_keeps_settings(
                r,
                r.datamatrix_data,
                Barcode2DVariant::DataMatrix,
                r.symbols.datamatrix_module_size,
            );
        },
        Command::PrintQr => {
            lemma_symbol_keeps_settings(r, Seq::empty(), Barcode2DVariant::Pdf417, 1);
        },
        _ => {
            lemma_print_keeps_settings(r, ElementView::Separator);
        },
    }
}

/// A GS command keeps the settings in their ranges; `GS w`, `GS h` and `GS H`
/// bring theirs into range.
pub proof fn gs_keeps_settings(r: RendererView, d: DeviceView, s: Seq<u8>)
    requires
        s.len() >= 2,
    ensures
        gs_span(s) is Ends && settings_wf(r) ==> settings_wf(apply(r, d, gs_command(s))),
        s.len() >= 3 && (s[1] == GS_MODULE_WIDTH || s[1] == GS_BARCODE_HEIGHT || s[1] == GS_HRI)
            ==> gs_span(s) is Ends,
        s.len() >= 3 && s[1] == GS_MODULE_WIDTH ==> apply(
            r,
            d,
            gs_command(s),
        ).symbols.barcode_module_width == clamp_u8(s[2], 1, 6),
        s.len() >= 3 && s[1] == GS_BARCODE_HEIGHT ==> apply(
            r,
            d,
            gs_command(s),
        ).symbols.barcode_height == clamp_u8(s[2], 1, 255),
        s.len() >= 3 && s[1] == GS_HRI ==> apply(
            r,
            d,
            gs_command(s),
        ).symbols.barcode_hri_position == hri_of(s[2]),
{
    if gs_span(s) is Ends && settings_wf(r) {
        gs_command_is_wf(s);
        apply_keeps_settings(r, d, gs_command(s));
    }
}

/// The bytes to send back, those that wait, and the stored symbols are the same.
pub open spec fn keeps_queues(a: RendererView, b: RendererView) -> bool {
    &&& b.responses == a.responses
    &&& b.pending == a.pending
    &&& b.qr_data == a.qr_data
    &&& b.pdf417_data == a.pdf417_data
    &&& b.datamatrix_data == a.datamatrix_data
}

proof fn lemma_feed_lines_keep_queues(r: RendererView, n: nat)
    ensures
        keeps_queues(r, feed_lines(r, n)),
        feed_lines(r, n).symbols == r.symbols,
    decreases n,
{
    if n > 0 {
        lemma_feed_lines_keep_queues(feed_line(r), (n - 1) as nat);
    }
}

/// An ESC command always moves on, unless it is an image that waits. It sends
/// nothing back, and leaves what waits, the stored symbols, the size of QR codes,
/// the NV images and the log alone.
pub proof fn esc_keeps_queues(r: RendererView, d: DeviceView, s: Seq<u8>)
    requires
        s.len() >= 2,
    ensures
        esc_span(s) is Incomplete ==> s[1] == ESC_BIT_IMAGE,
        esc_span(s) matches Span::Ends(e) ==> 2 <= e <= s.len(),
        keeps_queues(r, apply(r, d, esc_command(s))),
        apply(r, d, esc_command(s)).symbols.qr_size == r.symbols.qr_size,
        apply_device(d, esc_command(s)).nv_images == d.nv_images,
        apply_device(d, esc_command(s)).log == d.log,
{
    esc_span_bounds(s);
    if s[1] == ESC_FEED_LINES && s.len() >= 3 {
        lemma_feed_lines_keep_queues(r, s[2] as nat);
    }
}

/// A well-formed command keeps the renderer well formed, and makes the line at
/// most four bytes longer.
pub proof fn apply_keeps_wf(r: RendererView, d: DeviceView, c: Command)
    requires
        renderer_wf(r),
        device_wf(d),
        command_wf(c),
    ensures
        renderer_wf(apply(r, d, c)),
        apply(r, d, c).line.len() <= r.line.len() + 4,
{
    match c {
        Command::LineFeed => {
            let q = RendererView { in_command: false, after_binary: false, ..r };
            lemma_print_line_wf(q);
            lemma_push_wf(q.elements, ElementView::Separator);
        },
        Command::CarriageReturn => {
            lemma_print_line_wf(RendererView { in_command: false, after_binary: false, ..r });
        },
        Command::FormFeed => {
            if !(r.elements.len() > 0 && r.elements.last() is FormFeed) {
                lemma_push_wf(r.elements, ElementView::FormFeed);
            }
        },
        Command::Format(setting) => {
            lemma_setting_wf(r.state, setting);
        },
        Command::Symbol(setting) => {
            lemma_symbol_setting_wf(r.symbols, setting);
        },
        Command::FeedLines(n) => {
            lemma_feed_lines_wf(r, n as nat);
        },
        Command::FeedDots(n) => {
            lemma_print_line_wf(r);
            lemma_separators_wf(finish_line(r).elements, separators_for(n) as nat);
        },
        Command::OpenDrawer { pin, on_time, off_time } => {
            lemma_push_wf(r.elements, ElementView::CashDrawer { pin, on_time, off_time });
        },
        Command::Barcode { barcode_type, data } => {
            let f = finish_line(r);
            lemma_print_line_wf(r);
            lemma_print_element_wf(
                f,
                ElementView::Barcode {
                    data,
                    barcode_type,
                    height: f.symbols.barcode_height,
                    module_width: f.symbols.barcode_module_width,
                    hri_position: f.symbols.barcode_hri_position,
                    alignment: f.state.alignment,
                    offset: f.state.horizontal_offset,
                    print_area_width: f.state.print_area_width,
                },
            );
        },
        Command::Cut(mode) => {
            lemma_print_line_wf(r);
            lemma_push_wf(
                print_line(r).elements,
                ElementView::PaperCut { cut_type: cut_name(mode) },
            );
        },
        Command::Image { width, height, bytes_per_line, data, dumped } => {
            lemma_print_image_wf(r, width, height, bytes_per_line, data);
        },
        Command::PrintPdf417 => {
            lemma_print_symbol_wf(
                r,
                r.pdf417_data,
                Barcode2DVariant::Pdf417,
                r.symbols.pdf417_module_width,
            );
        },
        Command::PrintDataMatrix => {
            lemma_print_symbol_wf(
                r,
                r.datamatrix_data,
                Barcode2DVariant::DataMatrix,
                r.symbols.datamatrix_module_size,
            );
        },
        Command::PrintQr => {
            lemma_print_qr_wf(r);
        },
        Command::PrintNv(slot) => {
            if d.nv_images.contains_key(slot) {
                let image = d.nv_images[slot];
                lemma_print_image_wf(
                    r,
                    image.width,
                    image.height,
                    ceil_div(image.width, 8),
                    image.data,
                );
            }
        },
        _ => {},
    }
}

/// One complete command keeps the printer well formed, and leaves no command
/// under way that the next byte does not open.
pub proof fn step_keeps_wf(m: Machine, s: Seq<u8>)
    requires
        renderer_wf(m.renderer),
        device_wf(m.device),
        s.len() > 0,
        span(s) is Ends,
        waits_for(m.renderer.in_command, s),
    ensures
        renderer_wf(step(m, s).renderer),
        device_wf(step(m, s).device),
        !step(m, s).renderer.in_command,
        step(m, s).renderer.line.len() <= m.renderer.line.len() + 4,
{
    reveal(step);
    command_is_wf(s);
    apply_keeps_wf(m.renderer, m.device, command(s));
    lemma_in_command(m.renderer, m.device, command(s));
}

/// No command puts the renderer into a command that is under way.
proof fn lemma_in_command(r: RendererView, d: DeviceView, c: Command)
    ensures
        apply(r, d, c).in_command ==> r.in_command,
{
    if let Command::FeedLines(n) = c {
        lemma_feed_lines_flags(r, n as nat);
    }
}

proof fn lemma_feed_lines_flags(r: RendererView, n: nat)
    ensures
        feed_lines(r, n).in_command == r.in_command,
    decreases n,
{
    if n > 0 {
        lemma_feed_lines_flags(feed_line(r), (n - 1) as nat);
    }
}

proof fn lemma_run_wf(m: Machine, s: Seq<u8>)
    requires
        renderer_wf(m.renderer),
        device_wf(m.device),
        well_framed(s),
        waits_for(m.renderer.in_command, s),
    ensures
        renderer_wf(run(m, s).renderer),
        device_wf(run(m, s).device),
        waiting_wf(run(m, s).renderer.in_command, leftover(s)),
    decreases s.len(),
{
    if s.len() > 0 {
        span_bounds(s);
        if let Span::Ends(e) = span(s) {
            step_keeps_wf(m, s);
            lemma_run_wf(step(m, s), s.skip(e));
        }
    }
}

/// The invariant holds whatever bytes arrive, as long as no command overruns them.
pub proof fn feed_keeps_wf(m: Machine, bytes: Seq<u8>)
    requires
        machine_wf(m),
        well_framed(m.renderer.pending + bytes),
    ensures
        machine_wf(feed(m, bytes)),
{
    let s = m.renderer.pending + bytes;
    if m.renderer.in_command {
        assert(s[0] == m.renderer.pending[0]);
    }
    lemma_run_wf(m, s);
}

/// A new connection to a well-formed device is well formed.
pub proof fn fresh_printer_is_wf(debug: bool, d: DeviceView)
    requires
        device_wf(d),
    ensures
        machine_wf((Machine { renderer: fresh_renderer(debug), device: d })),
{
    reveal(elements_wf);
}

/// A device without NV images is well formed.
pub proof fn empty_device_is_wf(status: PrinterStatus, log: Seq<LogEntryView>)
    ensures
        device_wf((DeviceView { status, nv_images: Map::empty(), log })),
{
}

/// Taking what was printed, queued or dumped keeps the printer well formed.
pub proof fn taking_output_keeps_wf(m: Machine)
    requires
        machine_wf(m),
    ensures
        machine_wf(
            (Machine { renderer: RendererView { elements: Seq::empty(), ..m.renderer }, ..m }),
        ),
        machine_wf(
            (Machine { renderer: RendererView { responses: Seq::empty(), ..m.renderer }, ..m }),
        ),
        machine_wf((Machine { renderer: RendererView { dumps: Seq::empty(), ..m.renderer }, ..m })),
{
    reveal(elements_wf);
}

/// No bytes change nothing.
pub proof fn no_bytes_change_nothing(m: Machine)
    requires
        machine_wf(m),
    ensures
        feed(m, Seq::empty()) == m,
{
    let pending = m.renderer.pending;
    assert(pending + Seq::<u8>::empty() =~= pending);
}

} // verus!
