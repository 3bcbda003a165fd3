//! What the commands mean: the printer as a function of the bytes it gets.

use vstd::prelude::*;
use crate::codepage::{line_text, utf8_text};
use crate::codes::{
    BS, CR, DC2, DC2_DENSITY, DLE, ENQ, EOT, ESC, ESC_ALIGN, ESC_BIT_IMAGE, ESC_BOLD,
    ESC_CHAR_SPACING, ESC_CODE_PAGE, ESC_DEFAULT_SPACING, ESC_DENSITY, ESC_DOUBLE_STRIKE,
    ESC_DRAWER, ESC_FEED_DOTS, ESC_FEED_LINES, ESC_FONT, ESC_INITIALIZE, ESC_LINE_SPACING,
    ESC_MOVE, ESC_POSITION, ESC_PRINT_MODE, ESC_UNDERLINE, FF, FS, FS_DEFINE_NV, FS_PRINT_NV, GS,
    GS_8_GRAPHICS, GS_AREA_WIDTH, GS_ASB, GS_BARCODE, GS_BARCODE_HEIGHT, GS_CHAR_SIZE, GS_CUT,
    GS_EXTENDED, GS_EXTENDED_LONG, GS_HRI, GS_IDENTIFY, GS_INVERT, GS_LEFT_MARGIN,
    GS_MODULE_WIDTH, GS_PAREN_SYMBOL, GS_RASTER, GS_STATUS, HT, LF, SYMBOL_DATAMATRIX,
    SYMBOL_PDF417, SYMBOL_QR, ceil_div, clamp_u8, is_text, le16, min_of, opens_command,
};
use crate::element::{Alignment, Barcode2DVariant, BarcodeType, ElementView, HriPosition};
use crate::framing::{
    Span, barcode_start, barcode_stop, column_height, column_image_valid, counted_system,
    graphics_bytes, graphics_prints, leftover, nul_terminated_system, raster_bytes, raster_prints,
    span, span_bounds, stored_bytes, symbol_sets, symbol_stores,
};
use crate::raster::rows_of_columns;
use crate::state::{
    DeviceView, NvImageView, PrinterState, PrinterStatus, Setting, SymbolSetting, SymbolSettings,
    default_state, default_symbols, log_entry, nv_table, real_time_status, text_element,
    transmitted_status, with_setting, with_symbol_setting,
};

verus! {

/// A raster image that was dumped for inspection.
#[verifier::ext_equal]
pub struct DumpView {
    pub width: int,
    pub height: int,
    pub data: Seq<u8>,
}

/// The part of the printer that belongs to one connection.
#[verifier::ext_equal]
pub struct RendererView {
    pub state: PrinterState,
    pub symbols: SymbolSettings,
    /// Bytes of the line that is not printed yet.
    pub line: Seq<u8>,
    pub debug: bool,
    /// Bytes that arrived and are not processed yet.
    pub pending: Seq<u8>,
    pub elements: Seq<ElementView>,
    /// A command has begun and is not complete.
    pub in_command: bool,
    pub qr_data: Seq<u8>,
    pub pdf417_data: Seq<u8>,
    pub datamatrix_data: Seq<u8>,
    /// Bytes to send back.
    pub responses: Seq<u8>,
    /// Image data came last: bytes are not taken as text before the next line
    /// end.
    pub after_binary: bool,
    pub dumps: Seq<DumpView>,
}

/// A renderer that nothing was sent to.
pub open spec fn fresh_renderer(debug: bool) -> RendererView {
    RendererView {
        state: default_state(),
        symbols: default_symbols(),
        line: Seq::empty(),
        debug,
        pending: Seq::empty(),
        elements: Seq::empty(),
        in_command: false,
        qr_data: Seq::empty(),
        pdf417_data: Seq::empty(),
        datamatrix_data: Seq::empty(),
        responses: Seq::empty(),
        after_binary: false,
        dumps: Seq::empty(),
    }
}

/// One connection's renderer and the device that it shares.
#[verifier::ext_equal]
pub struct Machine {
    pub renderer: RendererView,
    pub device: DeviceView,
}

/// What a command asks for, apart from how it is written.
#[verifier::ext_equal]
pub enum Command {
    /// Bytes that are taken and change nothing.
    Ignored,
    Text(u8),
    Backspace,
    LineFeed,
    CarriageReturn,
    FormFeed,
    Tab,
    RealTimeStatus,
    Initialize,
    Format(Setting),
    Symbol(SymbolSetting),
    FeedLines(u8),
    FeedDots(u8),
    OpenDrawer { pin: u8, on_time: u8, off_time: u8 },
    Barcode { barcode_type: BarcodeType, data: Seq<u8> },
    StatusBack(u8),
    Identify(u8),
    TransmitStatus,
    Cut(u8),
    Image { width: int, height: int, bytes_per_line: int, data: Seq<u8>, dumped: bool },
    StoreSymbol { family: u8, data: Seq<u8> },
    PrintPdf417,
    PrintQr,
    PrintDataMatrix,
    PrintNv(u8),
    DefineNv(Map<u8, NvImageView>),
}

pub open spec fn alignment_of(n: u8) -> Alignment {
    if n == 1 {
        Alignment::Center
    } else if n == 2 {
        Alignment::Right
    } else {
        Alignment::Left
    }
}

pub open spec fn hri_of(n: u8) -> HriPosition {
    if n == 1 {
        HriPosition::Above
    } else if n == 2 {
        HriPosition::Below
    } else if n == 3 {
        HriPosition::Both
    } else {
        HriPosition::Hidden
    }
}

/// The symbology of `GS k m`: from 0 on for NUL-terminated data, from 65 on for
/// counted data.
pub open spec fn barcode_type_of(m: u8) -> BarcodeType {
    let k = if m < 6 {
        m as int
    } else {
        m - 65
    };
    if k == 0 {
        BarcodeType::UpcA
    } else if k == 1 {
        BarcodeType::UpcE
    } else if k == 2 {
        BarcodeType::Ean13
    } else if k == 3 {
        BarcodeType::Ean8
    } else if k == 4 {
        BarcodeType::Code39
    } else if k == 5 {
        BarcodeType::Itf
    } else if k == 6 {
        BarcodeType::Codabar
    } else if k == 7 {
        BarcodeType::Code93
    } else {
        BarcodeType::Code128
    }
}

/// ESC commands with one parameter byte that change the formatting.
pub open spec fn esc_setting(code: u8, n: u8) -> Option<Setting> {
    match code {
        ESC_BOLD => Some(Setting::Bold(n == 1)),
        ESC_UNDERLINE => Some(Setting::Underline(n == 1 || n == 2)),
        ESC_ALIGN => Some(Setting::Align(alignment_of(n))),
        ESC_PRINT_MODE => Some(Setting::PrintMode(n)),
        ESC_DENSITY => Some(Setting::Density(clamp_u8(n, 0, 8))),
        ESC_CHAR_SPACING => Some(Setting::CharSpacing(n)),
        ESC_CODE_PAGE => Some(Setting::CodePage(n)),
        ESC_FONT => Some(Setting::Font(n)),
        ESC_LINE_SPACING => Some(Setting::LineSpacing(n)),
        ESC_DOUBLE_STRIKE => Some(Setting::DoubleStrike(n != 0)),
        _ => None,
    }
}

/// ESC commands with one parameter byte.
pub open spec fn esc_short_command(code: u8, n: u8) -> Command {
    match esc_setting(code, n) {
        Some(setting) => Command::Format(setting),
        None => if code == ESC_FEED_LINES {
            Command::FeedLines(n)
        } else if code == ESC_FEED_DOTS {
            Command::FeedDots(n)
        } else {
            Command::Ignored
        },
    }
}

/// `ESC * m nL nH d1...dk`.
pub open spec fn column_image_command(s: Seq<u8>) -> Command {
    let width = le16(s, 3);
    let height = column_height(s[2]);
    if column_image_valid(s) {
        Command::Image {
            width,
            height,
            bytes_per_line: ceil_div(width, 8),
            data: rows_of_columns(s.subrange(5, 5 + width * (height / 8)), width, height),
            dumped: false,
        }
    } else {
        Command::Ignored
    }
}

/// A complete ESC command.
pub open spec fn esc_command(s: Seq<u8>) -> Command {
    match s[1] {
        ESC_INITIALIZE => Command::Initialize,
        ESC_DEFAULT_SPACING => Command::Format(Setting::LineSpacing(30)),
        ESC_BIT_IMAGE => column_image_command(s),
        ESC_DRAWER => if s.len() >= 5 {
            Command::OpenDrawer { pin: s[2], on_time: s[3], off_time: s[4] }
        } else {
            Command::Ignored
        },
        ESC_POSITION => if s.len() >= 4 {
            Command::Format(Setting::Position(le16(s, 2) as u16))
        } else {
            Command::Ignored
        },
        ESC_MOVE => if s.len() >= 4 {
            Command::Format(Setting::Move(le16(s, 2) as u16))
        } else {
            Command::Ignored
        },
        _ => if s.len() >= 3 {
            esc_short_command(s[1], s[2])
        } else {
            Command::Ignored
        },
    }
}

/// GS commands with one parameter byte.
pub open spec fn gs_short_command(code: u8, n: u8) -> Command {
    match code {
        GS_CHAR_SIZE => Command::Format(Setting::CharSize(n)),
        GS_INVERT => Command::Format(Setting::Inverted(n == 1)),
        GS_HRI => Command::Symbol(SymbolSetting::Hri(hri_of(n))),
        GS_BARCODE_HEIGHT => Command::Symbol(SymbolSetting::BarcodeHeight(clamp_u8(n, 1, 255))),
        GS_MODULE_WIDTH => Command::Symbol(SymbolSetting::BarcodeModuleWidth(clamp_u8(n, 1, 6))),
        GS_ASB => Command::StatusBack(n),
        GS_IDENTIFY => Command::Identify(n),
        GS_STATUS => Command::TransmitStatus,
        GS_CUT => Command::Cut(n),
        _ => Command::Ignored,
    }
}

/// `GS v 0 m xL xH yL yH d1...dk`.
pub open spec fn raster_command(s: Seq<u8>) -> Command {
    if raster_prints(s) {
        Command::Image {
            width: le16(s, 4) * 8,
            height: le16(s, 6),
            bytes_per_line: le16(s, 4),
            data: s.subrange(8, 8 + raster_bytes(s)),
            dumped: true,
        }
    } else {
        Command::Ignored
    }
}

/// `GS 8 L ...`.
pub open spec fn graphics_command(s: Seq<u8>) -> Command {
    if graphics_prints(s) {
        Command::Image {
            width: le16(s, 13),
            height: le16(s, 15),
            bytes_per_line: ceil_div(le16(s, 13), 8),
            data: s.subrange(17, 17 + graphics_bytes(s)),
            dumped: false,
        }
    } else {
        Command::Ignored
    }
}

/// `GS k ...`: a barcode without data is not printed.
pub open spec fn barcode_command(s: Seq<u8>) -> Command {
    if s.len() >= 3 && (nul_terminated_system(s[2]) || counted_system(s[2]) && s.len() > 3)
        && barcode_start(s) < barcode_stop(s) {
        Command::Barcode {
            barcode_type: barcode_type_of(s[2]),
            data: s.subrange(barcode_start(s), barcode_stop(s)),
        }
    } else {
        Command::Ignored
    }
}

/// `GS ( k ...`.
pub open spec fn symbol_command(s: Seq<u8>) -> Command {
    let family = s[5];
    let function = s[6];
    if symbol_stores(family, function) {
        Command::StoreSymbol { family, data: s.subrange(8, 8 + stored_bytes(s)) }
    } else if symbol_sets(family, function) {
        if s.len() > 7 {
            Command::Symbol(SymbolSetting::Parameter { family, function, value: s[7] })
        } else {
            Command::Ignored
        }
    } else if family == SYMBOL_PDF417 && function == 82 {
        Command::PrintPdf417
    } else if family == SYMBOL_QR && function == 81 {
        Command::PrintQr
    } else if family == SYMBOL_DATAMATRIX && function == 82 {
        Command::PrintDataMatrix
    } else {
        Command::Ignored
    }
}

/// A complete GS command.
pub open spec fn gs_command(s: Seq<u8>) -> Command {
    match s[1] {
        GS_EXTENDED_LONG => if s.len() >= 3 && s[2] == GS_8_GRAPHICS {
            graphics_command(s)
        } else {
            Command::Ignored
        },
        GS_RASTER => if s.len() >= 3 {
            raster_command(s)
        } else {
            Command::Ignored
        },
        GS_LEFT_MARGIN => if s.len() >= 4 {
            Command::Format(Setting::LeftMargin(le16(s, 2) as u16))
        } else {
            Command::Ignored
        },
        GS_AREA_WIDTH => if s.len() >= 4 {
            Command::Format(Setting::AreaWidth(le16(s, 2) as u16))
        } else {
            Command::Ignored
        },
        GS_BARCODE => barcode_command(s),
        GS_EXTENDED => if s.len() >= 3 && s[2] == GS_PAREN_SYMBOL {
            symbol_command(s)
        } else {
            Command::Ignored
        },
        _ => if s.len() >= 3 {
            gs_short_command(s[1], s[2])
        } else {
            Command::Ignored
        },
    }
}

/// A complete FS command.
pub open spec fn fs_command(s: Seq<u8>) -> Command {
    match s[1] {
        FS_PRINT_NV => if s.len() >= 4 {
            Command::PrintNv(s[2])
        } else {
            Command::Ignored
        },
        FS_DEFINE_NV => if s.len() >= 3 {
            Command::DefineNv(nv_table(Map::empty(), s, 3, 1, s[2] as nat))
        } else {
            Command::Ignored
        },
        _ => Command::Ignored,
    }
}

/// The command that complete bytes `s` start with.
#[verifier::opaque]
pub open spec fn command(s: Seq<u8>) -> Command {
    let b = s[0];
    if b == ESC {
        esc_command(s)
    } else if b == GS {
        gs_command(s)
    } else if b == FS {
        fs_command(s)
    } else if b == DLE {
        if (s[1] == EOT || s[1] == ENQ) && s.len() >= 3 {
            Command::RealTimeStatus
        } else {
            Command::Ignored
        }
    } else if b == DC2 {
        if s.len() > 1 && s[1] == DC2_DENSITY {
            if s.len() > 2 {
                Command::Format(Setting::Density(s[2] / 32))
            } else {
                Command::Ignored
            }
        } else {
            Command::Format(Setting::Bold(false))
        }
    } else if b == BS {
        Command::Backspace
    } else if b == LF {
        Command::LineFeed
    } else if b == CR {
        Command::CarriageReturn
    } else if b == FF {
        Command::FormFeed
    } else if b == HT {
        Command::Tab
    } else if is_text(b) {
        Command::Text(b)
    } else {
        Command::Ignored
    }
}

/// A printed image.
pub open spec fn image_element(
    state: PrinterState,
    width: int,
    height: int,
    bytes_per_line: int,
    data: Seq<u8>,
) -> ElementView {
    ElementView::RasterImage {
        width,
        height,
        data,
        offset: state.horizontal_offset,
        density: state.print_density,
        alignment: state.alignment,
        bytes_per_line,
        print_area_width: state.print_area_width,
    }
}

/// Prints the line, if it holds anything, and keeps its bytes. The horizontal
/// offset is used up.
pub open spec fn print_line(r: RendererView) -> RendererView {
    if r.line.len() == 0 {
        r
    } else {
        RendererView {
            elements: r.elements.push(
                text_element(r.state, line_text(r.state.code_page, r.state.encoding, r.line)),
            ),
            state: PrinterState { horizontal_offset: 0, ..r.state },
            ..r
        }
    }
}

/// Prints the line and starts a new one.
pub open spec fn finish_line(r: RendererView) -> RendererView {
    RendererView { line: Seq::empty(), ..print_line(r) }
}

/// Adds one element and uses up the horizontal offset.
pub open spec fn print_element(r: RendererView, e: ElementView) -> RendererView {
    RendererView {
        elements: r.elements.push(e),
        state: PrinterState { horizontal_offset: 0, ..r.state },
        ..r
    }
}

/// Prints the line, or feeds an empty one where something was printed before.
pub open spec fn feed_line(r: RendererView) -> RendererView {
    if r.line.len() > 0 {
        finish_line(r)
    } else if r.elements.len() > 0 {
        RendererView { elements: r.elements.push(ElementView::Separator), ..r }
    } else {
        r
    }
}

pub open spec fn feed_lines(r: RendererView, n: nat) -> RendererView
    decreases n,
{
    if n == 0 {
        r
    } else {
        feed_lines(feed_line(r), (n - 1) as nat)
    }
}

/// Blank lines that `ESC J n` shows: one for 24 dots begun, four at most.
pub open spec fn separators_for(dots: u8) -> int {
    min_of(ceil_div(dots as int, 24), 4)
}

pub open spec fn separators(n: nat) -> Seq<ElementView> {
    Seq::new(n, |k: int| ElementView::Separator)
}

/// `ESC @`: formatting and symbol settings as after power-on, but for those of
/// QR codes.
pub open spec fn initialized(r: RendererView) -> RendererView {
    RendererView {
        state: default_state(),
        symbols: SymbolSettings {
            qr_size: r.symbols.qr_size,
            qr_error_correction: r.symbols.qr_error_correction,
            ..default_symbols()
        },
        ..r
    }
}

/// The answer to `GS a`: bit 2 drawer open, bit 3 offline, bit 4 always, bit 5
/// cover open in the first byte; bits 2 and 3 paper out in the third.
pub open spec fn automatic_status(st: PrinterStatus) -> Seq<u8> {
    let drawer: int = if st.drawer_open {
        0x04
    } else {
        0
    };
    let offline: int = if st.online {
        0
    } else {
        0x08
    };
    let cover: int = if st.cover_closed {
        0
    } else {
        0x20
    };
    seq![
        (0x10 + drawer + offline + cover) as u8,
        0,
        if st.paper_present {
            0
        } else {
            0x0C
        },
        0,
    ]
}

/// The answer to `GS I n`: a block that starts with 0x5f and ends with NUL, for
/// the manufacturer "CITIZEN" and the model "CT-S310".
pub open spec fn identification(n: u8) -> Seq<u8> {
    if n == 0x42 {
        seq![0x5f, 0x43, 0x49, 0x54, 0x49, 0x5A, 0x45, 0x4E, 0x00]
    } else if n == 0x43 {
        seq![0x5f, 0x43, 0x54, 0x2D, 0x53, 0x33, 0x31, 0x30, 0x00]
    } else {
        seq![]
    }
}

/// What a cut of `GS V m` is called.
pub open spec fn cut_name(m: u8) -> Seq<char> {
    if m == 0 || m == 48 {
        "FULL CUT"@
    } else if m == 1 || m == 49 {
        "PARTIAL CUT"@
    } else if m == 65 {
        "FEED & FULL CUT"@
    } else if m == 66 {
        "FEED & PARTIAL CUT"@
    } else {
        "UNKNOWN CUT"@
    }
}

/// Prints a two-dimensional symbol, unless no data is stored.
pub open spec fn print_symbol(
    r: RendererView,
    data: Seq<u8>,
    variant: Barcode2DVariant,
    module_size: u8,
) -> RendererView {
    if data.len() == 0 {
        r
    } else {
        let f = finish_line(r);
        print_element(
            f,
            ElementView::Barcode2D {
                data,
                variant,
                module_size,
                alignment: f.state.alignment,
                offset: f.state.horizontal_offset,
                print_area_width: f.state.print_area_width,
            },
        )
    }
}

/// Prints the stored QR code and forgets it.
pub open spec fn print_qr(r: RendererView) -> RendererView {
    if r.qr_data.len() == 0 {
        r
    } else {
        let f = finish_line(r);
        RendererView {
            qr_data: Seq::empty(),
            ..print_element(
                f,
                ElementView::QrCode {
                    data: utf8_text(r.qr_data),
                    size: clamp_u8(r.symbols.qr_size, 1, 16) as int,
                    alignment: f.state.alignment,
                    offset: f.state.horizontal_offset,
                    print_area_width: f.state.print_area_width,
                },
            )
        }
    }
}

/// Prints an image behind the current line.
pub open spec fn print_image(
    r: RendererView,
    width: int,
    height: int,
    bytes_per_line: int,
    data: Seq<u8>,
) -> RendererView {
    let f = finish_line(r);
    print_element(f, image_element(f.state, width, height, bytes_per_line, data))
}

/// Removes the last byte of the line, if there is one.
pub open spec fn without_last(line: Seq<u8>) -> Seq<u8> {
    if line.len() > 0 {
        line.drop_last()
    } else {
        line
    }
}

/// What a command does to the renderer.
pub open spec fn apply(r: RendererView, d: DeviceView, c: Command) -> RendererView {
    match c {
        Command::Ignored => r,
        Command::Text(b) => if r.in_command || r.after_binary {
            r
        } else {
            RendererView { line: r.line.push(b), ..r }
        },
        Command::Backspace => RendererView { line: without_last(r.line), ..r },
        Command::LineFeed => feed_line(
            RendererView { in_command: false, after_binary: false, ..r },
        ),
        Command::CarriageReturn => finish_line(
            RendererView { in_command: false, after_binary: false, ..r },
        ),
        Command::FormFeed => RendererView {
            line: Seq::empty(),
            elements: if r.elements.len() > 0 && r.elements.last() is FormFeed {
                r.elements
            } else {
                r.elements.push(ElementView::FormFeed)
            },
            ..r
        },
        Command::Tab => if r.in_command {
            r
        } else {
            RendererView { line: r.line + seq![0x20u8, 0x20u8, 0x20u8, 0x20u8], ..r }
        },
        Command::RealTimeStatus => RendererView {
            responses: r.responses.push(real_time_status(d.status)),
            ..r
        },
        Command::Initialize => initialized(r),
        Command::Format(setting) => RendererView { state: with_setting(r.state, setting), ..r },
        Command::Symbol(setting) => RendererView {
            symbols: with_symbol_setting(r.symbols, setting),
            ..r
        },
        Command::FeedLines(n) => feed_lines(r, n as nat),
        Command::FeedDots(n) => {
            let f = finish_line(r);
            RendererView {
                elements: f.elements + separators(separators_for(n) as nat),
                ..f
            }
        },
        Command::OpenDrawer { pin, on_time, off_time } => RendererView {
            elements: r.elements.push(ElementView::CashDrawer { pin, on_time, off_time }),
            ..r
        },
        Command::Barcode { barcode_type, data } => {
            let f = finish_line(r);
            print_element(
                f,
                ElementView::Barcode {
                    data,
                    barcode_type,
                    height: f.symbols.barcode_height,
                    module_width: f.symbols.barcode_module_width,
                    hri_position: f.symbols.barcode_hri_position,
                    alignment: f.state.alignment,
                    offset: f.state.horizontal_offset,
                    print_area_width: f.state.print_area_width,
                },
            )
        },
        Command::StatusBack(flags) => if flags == 0 {
            r
        } else {
            RendererView { responses: r.responses + automatic_status(d.status), ..r }
        },
        Command::Identify(n) => RendererView { responses: r.responses + identification(n), ..r },
        Command::TransmitStatus => RendererView {
            responses: r.responses.push(transmitted_status(d.status)),
            ..r
        },
        Command::Cut(mode) => {
            let p = print_line(r);
            RendererView {
                elements: p.elements.push(ElementView::PaperCut { cut_type: cut_name(mode) }),
                ..p
            }
        },
        Command::Image { width, height, bytes_per_line, data, dumped } => RendererView {
            after_binary: true,
            dumps: if dumped && r.debug {
                r.dumps.push(DumpView { width, height, data })
            } else {
                r.dumps
            },
            ..print_image(r, width, height, bytes_per_line, data)
        },
        Command::StoreSymbol { family, data } => if family == SYMBOL_PDF417 {
            RendererView { pdf417_data: data, ..r }
        } else if family == SYMBOL_QR {
            RendererView { qr_data: data, ..r }
        } else {
            RendererView { datamatrix_data: data, ..r }
        },
        Command::PrintPdf417 => RendererView {
            pdf417_data: Seq::empty(),
            ..print_symbol(
                r,
                r.pdf417_data,
                Barcode2DVariant::Pdf417,
                r.symbols.pdf417_module_width,
            )
        },
        Command::PrintQr => print_qr(r),
        Command::PrintDataMatrix => RendererView {
            datamatrix_data: Seq::empty(),
            ..print_symbol(
                r,
                r.datamatrix_data,
                Barcode2DVariant::DataMatrix,
                r.symbols.datamatrix_module_size,
            )
        },
        Command::PrintNv(slot) => if d.nv_images.contains_key(slot) {
            let image = d.nv_images[slot];
            print_image(r, image.width, image.height, ceil_div(image.width, 8), image.data)
        } else {
            r
        },
        Command::DefineNv(_) => r,
    }
}

/// What a command does to the shared device.
pub open spec fn apply_device(d: DeviceView, c: Command) -> DeviceView {
    match c {
        Command::OpenDrawer { .. } => DeviceView {
            status: PrinterStatus { drawer_open: true, ..d.status },
            ..d
        },
        Command::DefineNv(images) => DeviceView {
            nv_images: d.nv_images.union_prefer_right(images),
            ..d
        },
        _ => d,
    }
}

/// The commands that are logged.
pub open spec fn is_logged(opener: u8) -> bool {
    opener == ESC || opener == GS || opener == FS
}

/// The printer after the complete command that `s` starts with.
#[verifier::opaque]
pub open spec fn step(m: Machine, s: Seq<u8>) -> Machine {
    let r = apply(m.renderer, m.device, command(s));
    let d = apply_device(m.device, command(s));
    Machine {
        renderer: if opens_command(s[0]) {
            RendererView { in_command: false, ..r }
        } else {
            r
        },
        device: if is_logged(s[0]) {
            DeviceView { log: d.log.push(log_entry(s[0], s[1])), ..d }
        } else {
            d
        },
    }
}

/// The printer when it waits for more of the command that `s` starts with.
pub open spec fn waiting(m: Machine, s: Seq<u8>) -> Machine {
    if opens_command(s[0]) {
        Machine { renderer: RendererView { in_command: true, ..m.renderer }, ..m }
    } else {
        m
    }
}

/// The printer after every complete command of `s`.
pub open spec fn run(m: Machine, s: Seq<u8>) -> Machine
    decreases s.len(),
{
    if s.len() == 0 {
        m
    } else {
        proof {
            span_bounds(s);
        }
        match span(s) {
            Span::Ends(e) => run(step(m, s), s.skip(e)),
            Span::Incomplete => waiting(m, s),
            Span::Overrun => m,
        }
    }
}

/// The printer after new bytes have arrived.
pub open spec fn feed(m: Machine, bytes: Seq<u8>) -> Machine {
    let s = m.renderer.pending + bytes;
    let after = run(m, s);
    Machine { renderer: RendererView { pending: leftover(s), ..after.renderer }, ..after }
}

} // verus!
