//! The renderer: turns the bytes of one connection into receipt elements.

use vstd::prelude::*;
use vstd::slice::slice_subrange;
use crate::codepage::{decodable_len, decode_line, decode_utf8_lossy};
use crate::codes::{
    ACK, BEL, BS, CAN, CR, DC1, DC2, DC2_DENSITY, DC3, DC4, DEL, DLE, ENQ, EOT, ESC, ESC_ALIGN,
    ESC_BIT_IMAGE, ESC_BOLD, ESC_CHAR_SPACING, ESC_CODE_PAGE, ESC_DEFAULT_SPACING, ESC_DENSITY,
    ESC_DOUBLE_STRIKE, ESC_DRAWER, ESC_FEED_DOTS, ESC_FEED_LINES, ESC_FONT, ESC_INITIALIZE,
    ESC_LINE_SPACING, ESC_MOVE, ESC_POSITION, ESC_PRINT_MODE, ESC_UNDERLINE, ETB, ETX, FF, FS,
    FS_DEFINE_NV, FS_PRINT_NV, GS, GS_8_GRAPHICS, GS_AREA_WIDTH, GS_ASB, GS_BARCODE,
    GS_BARCODE_HEIGHT, GS_CHAR_SIZE, GS_CUT, GS_EXTENDED, GS_EXTENDED_LONG, GS_HRI, GS_IDENTIFY,
    GS_INVERT, GS_LEFT_MARGIN, GS_MODULE_WIDTH, GS_PAREN_SYMBOL, GS_RASTER, GS_STATUS, HT, LF, RS,
    SI, SO, SOH, STX, SYMBOL_DATAMATRIX, SYMBOL_PDF417, SYMBOL_QR, VT, ceil_div, clamp_byte,
    clamp_u8, copy_range, min_usize, minus, minus_usize, read_le16, read_le32,
};
use crate::element::{
    Alignment, Barcode2DVariant, BarcodeType, HriPosition, ReceiptElement, element_views,
    element_views_push,
};
use crate::framing::{
    Extent, MAX_DOTS, MAX_GRAPHICS_BYTES, MAX_IMAGE_BYTES, MAX_SYMBOL_BYTES, Span, check_framing,
    column_image_extent, column_image_span, dots_per_column, esc_extent, esc_span,
    esc_span_bounds, extent, find_nul, find_overrun, fs_extent, fs_span, fs_span_bounds,
    graphics_extent, graphics_span, gs_extent, gs_span, gs_span_bounds, leftover, lemma_product16,
    overrun_at, raster_extent, raster_span, span, span_bounds, symbol_extent, symbol_span,
    well_framed,
};
use crate::invariants::{
    device_wf, esc_keeps_queues, feed_keeps_wf, gs_keeps_settings, keeps_queues, machine_wf,
    renderer_wf, settings_wf, step_keeps_wf, waits_for,
};
use crate::model::{
    Command, DumpView, Machine, RendererView, apply, apply_device, automatic_status,
    barcode_command, column_image_command, command, esc_command, esc_setting, esc_short_command,
    feed, feed_line, feed_lines, finish_line, fresh_renderer, fs_command, graphics_command,
    gs_command, gs_short_command, hri_of, identification, image_element, initialized, is_logged,
    print_element, print_image, print_line, print_qr, print_symbol, raster_command, run,
    separators, step, symbol_command, without_last,
};
use crate::raster::{bytes_for_dots, column_to_raster};
use crate::state::{
    Device, DeviceView, PrinterState, PrinterStatus, Setting, SymbolSetting, SymbolSettings,
};

verus! {

/// A raster image that was printed while debugging is on, kept for inspection.
#[derive(Debug, Clone)]
pub struct RasterDump {
    pub width: usize,
    pub height: usize,
    pub data: Vec<u8>,
}

impl View for RasterDump {
    type V = DumpView;

    open spec fn view(&self) -> DumpView {
        DumpView { width: self.width as int, height: self.height as int, data: self.data@ }
    }
}

/// The views of a list of dumps.
pub open spec fn dump_views(dumps: Seq<RasterDump>) -> Seq<DumpView> {
    Seq::new(dumps.len(), |k: int| dumps[k]@)
}

/// The part of the printer that belongs to one connection.
pub struct EscPosRenderer {
    state: PrinterState,
    symbols: SymbolSettings,
    current_line: Vec<u8>,
    debug: bool,
    buffer: Vec<u8>,
    elements: Vec<ReceiptElement>,
    in_command_sequence: bool,
    qr_data: Vec<u8>,
    pdf417_data: Vec<u8>,
    datamatrix_data: Vec<u8>,
    response_queue: Vec<u8>,
    last_was_binary: bool,
    raster_dumps: Vec<RasterDump>,
}

impl View for EscPosRenderer {
    type V = RendererView;

    closed spec fn view(&self) -> RendererView {
        RendererView {
            state: self.state,
            symbols: self.symbols,
            line: self.current_line@,
            debug: self.debug,
            pending: self.buffer@,
            elements: element_views(self.elements@),
            in_command: self.in_command_sequence,
            qr_data: self.qr_data@,
            pdf417_data: self.pdf417_data@,
            datamatrix_data: self.datamatrix_data@,
            responses: self.response_queue@,
            after_binary: self.last_was_binary,
            dumps: dump_views(self.raster_dumps@),
        }
    }
}

/// One connection's renderer together with the device.
pub open spec fn machine(r: EscPosRenderer, d: Device) -> Machine {
    Machine { renderer: r@, device: d@ }
}

/// The change of formatting that an ESC command with one parameter byte makes.
fn read_esc_setting(code: u8, n: u8) -> (r: Option<Setting>)
    ensures
        r == esc_setting(code, n),
{
    match code {
        ESC_BOLD => Some(Setting::Bold(n == 1)),
        ESC_UNDERLINE => Some(Setting::Underline(n == 1 || n == 2)),
        ESC_ALIGN => Some(
            Setting::Align(
                match n {
                    0 => Alignment::Left,
                    1 => Alignment::Center,
                    2 => Alignment::Right,
                    _ => Alignment::Left,
                },
            ),
        ),
        ESC_PRINT_MODE => Some(Setting::PrintMode(n)),
        ESC_DENSITY => Some(Setting::Density(clamp_byte(n, 0, 8))),
        ESC_CHAR_SPACING => Some(Setting::CharSpacing(n)),
        ESC_CODE_PAGE => Some(Setting::CodePage(n)),
        ESC_FONT => Some(Setting::Font(n)),
        ESC_LINE_SPACING => Some(Setting::LineSpacing(n)),
        ESC_DOUBLE_STRIKE => Some(Setting::DoubleStrike(n != 0)),
        _ => None,
    }
}

impl EscPosRenderer {
    pub fn new(debug: bool) -> (r: Self)
        ensures
            r@ == fresh_renderer(debug),
    {
        let r = EscPosRenderer {
            state: PrinterState::default(),
            symbols: SymbolSettings::default(),
            current_line: Vec::new(),
            debug,
            buffer: Vec::new(),
            elements: Vec::new(),
            in_command_sequence: false,
            qr_data: Vec::new(),
            pdf417_data: Vec::new(),
            datamatrix_data: Vec::new(),
            response_queue: Vec::new(),
            last_was_binary: false,
            raster_dumps: Vec::new(),
        };
        assert(r@ =~= fresh_renderer(debug));
        r
    }

    /// Hands out the elements printed so far, and keeps none.
    pub fn take_elements(&mut self) -> (r: Vec<ReceiptElement>)
        ensures
            element_views(r@) == old(self)@.elements,
            final(self)@ == (RendererView { elements: Seq::empty(), ..old(self)@ }),
    {
        let mut taken: Vec<ReceiptElement> = Vec::new();
        std::mem::swap(&mut taken, &mut self.elements);
        assert(element_views(self.elements@) =~= Seq::empty());
        taken
    }

    /// Hands out the bytes to send back, and keeps none.
    pub fn take_responses(&mut self) -> (r: Vec<u8>)
        ensures
            r@ == old(self)@.responses,
            final(self)@ == (RendererView { responses: Seq::empty(), ..old(self)@ }),
    {
        let mut taken: Vec<u8> = Vec::new();
        std::mem::swap(&mut taken, &mut self.response_queue);
        assert(self.response_queue@ =~= Seq::empty());
        taken
    }

    /// Hands out the raster images kept for inspection, and keeps none.
    pub fn take_raster_dumps(&mut self) -> (r: Vec<RasterDump>)
        ensures
            dump_views(r@) == old(self)@.dumps,
            final(self)@ == (RendererView { dumps: Seq::empty(), ..old(self)@ }),
    {
        let mut taken: Vec<RasterDump> = Vec::new();
        std::mem::swap(&mut taken, &mut self.raster_dumps);
        assert(dump_views(self.raster_dumps@) =~= Seq::empty());
        taken
    }

    fn push_element(&mut self, e: ReceiptElement)
        ensures
            final(self)@ == (RendererView { elements: old(self)@.elements.push(e@), ..old(self)@ }),
    {
        proof {
            element_views_push(self.elements@, e);
        }
        self.elements.push(e);
    }

    /// Adds an element and uses up the horizontal offset.
    fn print_element(&mut self, e: ReceiptElement)
        ensures
            final(self)@ == print_element(old(self)@, e@),
    {
        self.push_element(e);
        self.state.horizontal_offset = 0;
    }

    /// Prints the line, if it holds anything, and keeps its bytes.
    pub fn flush_line(&mut self)
        requires
            decodable_len(old(self)@.line.len()),
        ensures
            final(self)@ == print_line(old(self)@),
    {
        if self.current_line.is_empty() {
            return ;
        }
        let content = decode_line(
            self.state.code_page,
            self.state.encoding,
            self.current_line.as_slice(),
        );
        let e = self.state.text_element(content);
        self.print_element(e);
    }

    /// Prints the line and starts a new one.
    fn finish_line(&mut self)
        requires
            decodable_len(old(self)@.line.len()),
        ensures
            final(self)@ == finish_line(old(self)@),
    {
        if !self.current_line.is_empty() {
            self.flush_line();
            self.current_line.clear();
        }
        assert(self@.line =~= Seq::empty());
    }

    /// Prints the line, or feeds an empty one where something was printed
    /// before.
    fn feed_line(&mut self)
        requires
            decodable_len(old(self)@.line.len()),
        ensures
            final(self)@ == feed_line(old(self)@),
    {
        if !self.current_line.is_empty() {
            self.finish_line();
        } else if !self.elements.is_empty() {
            self.push_element(ReceiptElement::Separator);
        }
    }

    fn image_element(
        &self,
        width: usize,
        height: usize,
        bytes_per_line: usize,
        data: Vec<u8>,
    ) -> (r: ReceiptElement)
        ensures
            r@ == image_element(
                self@.state,
                width as int,
                height as int,
                bytes_per_line as int,
                data@,
            ),
    {
        ReceiptElement::RasterImage {
            width,
            height,
            data,
            offset: self.state.horizontal_offset,
            density: self.state.print_density,
            alignment: self.state.alignment,
            bytes_per_line,
            print_area_width: self.state.print_area_width,
        }
    }

    /// Prints an image behind the current line.
    fn print_image(&mut self, width: usize, height: usize, bytes_per_line: usize, data: Vec<u8>)
        requires
            decodable_len(old(self)@.line.len()),
        ensures
            final(self)@ == print_image(
                old(self)@,
                width as int,
                height as int,
                bytes_per_line as int,
                data@,
            ),
    {
        self.finish_line();
        let e = self.image_element(width, height, bytes_per_line, data);
        self.print_element(e);
    }

    /// `ESC * m nL nH d1...dk`, with `i` at `m`: prints a column-based image.
    pub fn handle_raster_graphics(&mut self, data: &[u8], i: usize) -> (r: Option<usize>)
        requires
            2 <= i <= data.len(),
            decodable_len(old(self)@.line.len()),
        ensures
            match column_image_span(data@.skip(i - 2)) {
                Span::Ends(e) => {
                    &&& r == Some((i - 2 + e) as usize)
                    &&& i - 2 + e <= data.len()
                    &&& forall|d: DeviceView|
                        final(self)@ == #[trigger] apply(
                            old(self)@,
                            d,
                            column_image_command(data@.skip(i - 2)),
                        )
                },
                _ => r is None && final(self)@ == old(self)@,
            },
    {
        let s = slice_subrange(data, i - 2, data.len());
        assert(s@ =~= data@.skip(i - 2));
        match column_image_extent(s) {
            Extent::Ends(e) => {
                let width: usize = read_le16(s, 3);
                if width > 0 && width <= MAX_DOTS {
                    let height: usize = dots_per_column(s[2]);
                    let columns = slice_subrange(s, 5, e);
                    proof {
                        assert(ceil_div(width as int, 8) * height <= 30_000)
                            by (nonlinear_arith)
                            requires
                                0 <= ceil_div(width as int, 8) <= 1250,
                                height <= 24,
                        ;
                    }
                    let raster_data = column_to_raster(columns, width, height);
                    self.print_image(width, height, bytes_for_dots(width), raster_data);
                    self.last_was_binary = true;
                }
                Some(i - 2 + e)
            },
            _ => None,
        }
    }

    /// `GS v 0 m xL xH yL yH d1...dk`, with `i` behind `GS v`: prints a
    /// row-based image.
    pub fn handle_raster_graphics_gs(&mut self, data: &[u8], i: usize) -> (r: Option<usize>)
        requires
            2 <= i < data.len(),
            decodable_len(old(self)@.line.len()),
        ensures
            match raster_span(data@.skip(i - 2)) {
                Span::Ends(e) => {
                    &&& r == Some((i - 2 + e) as usize)
                    &&& i - 2 + e <= data.len()
                    &&& forall|d: DeviceView|
                        final(self)@ == #[trigger] apply(
                            old(self)@,
                            d,
                            raster_command(data@.skip(i - 2)),
                        )
                },
                _ => r is None && final(self)@ == old(self)@,
            },
    {
        let s = slice_subrange(data, i - 2, data.len());
        assert(s@ =~= data@.skip(i - 2));
        match raster_extent(s) {
            Extent::Ends(e) => {
                let width_bytes: usize = read_le16(s, 4);
                let height: usize = read_le16(s, 6);
                if width_bytes > 0 && height > 0 && width_bytes * 8 <= MAX_DOTS && height
                    <= MAX_DOTS {
                    proof {
                        lemma_product16(width_bytes as int, height as int);
                    }
                    let total: usize = width_bytes * height;
                    if total <= MAX_IMAGE_BYTES {
                        self.print_image(
                            width_bytes * 8,
                            height,
                            width_bytes,
                            copy_range(s, 8, 8 + total),
                        );
                        self.last_was_binary = true;
                        if self.debug {
                            self.dump_raster(width_bytes * 8, height, copy_range(s, 8, 8 + total));
                        }
                    }
                }
                Some(i - 2 + e)
            },
            _ => None,
        }
    }

    fn dump_raster(&mut self, width: usize, height: usize, data: Vec<u8>)
        ensures
            final(self)@ == (RendererView {
                dumps: old(self)@.dumps.push(
                    DumpView { width: width as int, height: height as int, data: data@ },
                ),
                ..old(self)@
            }),
    {
        let ghost before = self@;
        self.raster_dumps.push(RasterDump { width, height, data });
        assert(self@.dumps =~= before.dumps.push(
            DumpView { width: width as int, height: height as int, data: data@ },
        ));
    }

    /// `GS 8 L ...`, with `i` at `L`: prints raster graphics.
    pub fn handle_gs_8l(&mut self, data: &[u8], i: usize) -> (r: Option<usize>)
        requires
            2 <= i < data.len(),
            decodable_len(old(self)@.line.len()),
        ensures
            match graphics_span(data@.skip(i - 2)) {
                Span::Ends(e) => {
                    &&& r == Some((i - 2 + e) as usize)
                    &&& i - 2 + e <= data.len()
                    &&& forall|d: DeviceView|
                        final(self)@ == #[trigger] apply(
                            old(self)@,
                            d,
                            graphics_command(data@.skip(i - 2)),
                        )
                },
                _ => r is None && final(self)@ == old(self)@,
            },
    {
        let s = slice_subrange(data, i - 2, data.len());
        assert(s@ =~= data@.skip(i - 2));
        match graphics_extent(s) {
            Extent::Ends(e) => {
                if s[7] == 48 || s[7] == 112 {
                    let length: usize = read_le32(s, 3);
                    let width: usize = read_le16(s, 13);
                    let height: usize = read_le16(s, 15);
                    let width_bytes: usize = bytes_for_dots(width);
                    proof {
                        lemma_product16(width_bytes as int, height as int);
                    }
                    let total: usize = width_bytes * height;
                    if length <= MAX_GRAPHICS_BYTES && total <= MAX_IMAGE_BYTES {
                        self.print_image(width, height, width_bytes, copy_range(s, 17, 17 + total));
                        self.last_was_binary = true;
                    }
                }
                Some(i - 2 + e)
            },
            _ => None,
        }
    }

    /// `GS V m`, with `i` at `m`: prints the line, keeps its bytes, and cuts.
    pub fn handle_paper_cut(&mut self, data: &[u8], i: usize) -> (r: usize)
        requires
            i < data.len(),
            decodable_len(old(self)@.line.len()),
        ensures
            r == i + 1,
            forall|d: DeviceView|
                final(self)@ == #[trigger] apply(old(self)@, d, Command::Cut(data@[i as int])),
    {
        let cut_type = match data[i] {
            0 | 48 => "FULL CUT",
            1 | 49 => "PARTIAL CUT",
            65 => "FEED & FULL CUT",
            66 => "FEED & PARTIAL CUT",
            _ => "UNKNOWN CUT",
        };
        self.flush_line();
        self.push_element(ReceiptElement::PaperCut { cut_type: cut_type.to_string() });
        i + 1
    }

    fn print_symbol(&mut self, data: Vec<u8>, variant: Barcode2DVariant, module_size: u8)
        requires
            decodable_len(old(self)@.line.len()),
        ensures
            final(self)@ == print_symbol(old(self)@, data@, variant, module_size),
    {
        if data.is_empty() {
            return ;
        }
        self.finish_line();
        let e = ReceiptElement::Barcode2D {
            data,
            variant,
            module_size,
            alignment: self.state.alignment,
            offset: self.state.horizontal_offset,
            print_area_width: self.state.print_area_width,
        };
        self.print_element(e);
    }

    /// Prints the stored QR code and forgets it.
    fn print_qr(&mut self)
        requires
            decodable_len(old(self)@.line.len()),
            old(self)@.qr_data.len() <= MAX_SYMBOL_BYTES,
        ensures
            final(self)@ == print_qr(old(self)@),
    {
        if self.qr_data.is_empty() {
            return ;
        }
        self.finish_line();
        let data = decode_utf8_lossy(self.qr_data.as_slice());
        let e = ReceiptElement::QrCode {
            data,
            size: clamp_byte(self.symbols.qr_size, 1, 16) as usize,
            alignment: self.state.alignment,
            offset: self.state.horizontal_offset,
            print_area_width: self.state.print_area_width,
        };
        self.print_element(e);
        self.qr_data.clear();
        assert(self@.qr_data =~= Seq::empty());
    }

    /// Prints the stored Pdf417 symbol and forgets it.
    fn print_pdf417(&mut self)
        requires
            decodable_len(old(self)@.line.len()),
        ensures
            forall|d: DeviceView|
                final(self)@ == #[trigger] apply(old(self)@, d, Command::PrintPdf417),
    {
        let data = self.pdf417_data.clone();
        let module_size: u8 = self.symbols.pdf417_module_width;
        self.print_symbol(data, Barcode2DVariant::Pdf417, module_size);
        self.pdf417_data.clear();
        assert(self@.pdf417_data =~= Seq::empty());
    }

    /// Prints the stored DataMatrix symbol and forgets it.
    fn print_datamatrix(&mut self)
        requires
            decodable_len(old(self)@.line.len()),
        ensures
            forall|d: DeviceView|
                final(self)@ == #[trigger] apply(old(self)@, d, Command::PrintDataMatrix),
    {
        let data = self.datamatrix_data.clone();
        let module_size: u8 = self.symbols.datamatrix_module_size;
        self.print_symbol(data, Barcode2DVariant::DataMatrix, module_size);
        self.datamatrix_data.clear();
        assert(self@.datamatrix_data =~= Seq::empty());
    }

    fn store_symbol(&mut self, family: u8, data: Vec<u8>)
        ensures
            forall|d: DeviceView|
                final(self)@ == #[trigger] apply(
                    old(self)@,
                    d,
                    Command::StoreSymbol { family, data: data@ },
                ),
    {
        if family == SYMBOL_PDF417 {
            self.pdf417_data = data;
        } else if family == SYMBOL_QR {
            self.qr_data = data;
        } else {
            self.datamatrix_data = data;
        }
    }

    /// A `GS ( k` command for PDF417 that takes `e` bytes, with `s` from GS on.
    fn handle_pdf417(&mut self, s: &[u8], e: usize)
        requires
            s.len() > 6,
            s@[5] == SYMBOL_PDF417,
            symbol_span(s@) == Span::Ends(e as int),
            decodable_len(old(self)@.line.len()),
        ensures
            forall|d: DeviceView|
                final(self)@ == #[trigger] apply(old(self)@, d, symbol_command(s@)),
    {
        let family: u8 = s[5];
        let function: u8 = s[6];
        match function {
            65..=70 => if s.len() > 7 {
                self.symbols.set(SymbolSetting::Parameter { family, function, value: s[7] });
            },
            80 => {
                self.store_symbol(family, copy_range(s, 8, e));
            },
            82 => {
                self.print_pdf417();
            },
            _ => {},
        }
    }

    /// A `GS ( k` command for QR codes that takes `e` bytes, with `s` from GS on.
    fn handle_qr(&mut self, s: &[u8], e: usize)
        requires
            s.len() > 6,
            s@[5] == SYMBOL_QR,
            symbol_span(s@) == Span::Ends(e as int),
            decodable_len(old(self)@.line.len()),
            old(self)@.qr_data.len() <= MAX_SYMBOL_BYTES,
        ensures
            forall|d: DeviceView|
                final(self)@ == #[trigger] apply(old(self)@, d, symbol_command(s@)),
    {
        let family: u8 = s[5];
        let function: u8 = s[6];
        match function {
            67 | 69 => if s.len() > 7 {
                self.symbols.set(SymbolSetting::Parameter { family, function, value: s[7] });
            },
            80 => {
                self.store_symbol(family, copy_range(s, 8, e));
            },
            81 => {
                self.print_qr();
            },
            _ => {},
        }
    }

    /// A `GS ( k` command for DataMatrix that takes `e` bytes, with `s` from GS on.
    fn handle_datamatrix(&mut self, s: &[u8], e: usize)
        requires
            s.len() > 6,
            s@[5] == SYMBOL_DATAMATRIX,
            symbol_span(s@) == Span::Ends(e as int),
            decodable_len(old(self)@.line.len()),
        ensures
            forall|d: DeviceView|
                final(self)@ == #[trigger] apply(old(self)@, d, symbol_command(s@)),
    {
        let family: u8 = s[5];
        let function: u8 = s[6];
        match function {
            65 | 67 => if s.len() > 7 {
                self.symbols.set(SymbolSetting::Parameter { family, function, value: s[7] });
            },
            80 => {
                self.store_symbol(family, copy_range(s, 8, e));
            },
            82 => {
                self.print_datamatrix();
            },
            _ => {},
        }
    }

    /// `GS ( k pL pH cn fn ...`, with `i` at `k`: settings, data and printing of
    /// PDF417, QR and DataMatrix symbols.
    pub fn handle_gs_paren_k(&mut self, data: &[u8], i: usize) -> (r: Option<usize>)
        requires
            2 <= i < data.len(),
            decodable_len(old(self)@.line.len()),
            old(self)@.qr_data.len() <= MAX_SYMBOL_BYTES,
        ensures
            match symbol_span(data@.skip(i - 2)) {
                Span::Ends(e) => {
                    &&& r == Some((i - 2 + e) as usize)
                    &&& i - 2 + e <= data.len()
                    &&& forall|d: DeviceView|
                        final(self)@ == #[trigger] apply(
                            old(self)@,
                            d,
                            symbol_command(data@.skip(i - 2)),
                        )
                },
                _ => r is None && final(self)@ == old(self)@,
            },
    {
        let s = slice_subrange(data, i - 2, data.len());
        assert(s@ =~= data@.skip(i - 2));
        match symbol_extent(s) {
            Extent::Ends(e) => {
                match s[5] {
                    SYMBOL_PDF417 => self.handle_pdf417(s, e),
                    SYMBOL_QR => self.handle_qr(s, e),
                    SYMBOL_DATAMATRIX => self.handle_datamatrix(s, e),
                    _ => {},
                }
                Some(i - 2 + e)
            },
            _ => None,
        }
    }

    /// `GS k ...`, with `s` from GS on: prints a barcode that has data.
    fn print_barcode(&mut self, s: &[u8])
        requires
            s.len() >= 2,
            decodable_len(old(self)@.line.len()),
        ensures
            forall|d: DeviceView|
                final(self)@ == #[trigger] apply(old(self)@, d, barcode_command(s@)),
    {
        if s.len() < 3 {
            return ;
        }
        let m: u8 = s[2];
        let (start, stop): (usize, usize) = if m < 6 {
            (3, find_nul(s, 3))
        } else if 65 <= m && m <= 73 && s.len() > 3 {
            (4, min_usize(4 + s[3] as usize, s.len()))
        } else {
            return ;
        };
        if start >= stop {
            return ;
        }
        let barcode_type = match m {
            0 | 65 => BarcodeType::UpcA,
            1 | 66 => BarcodeType::UpcE,
            2 | 67 => BarcodeType::Ean13,
            3 | 68 => BarcodeType::Ean8,
            4 | 69 => BarcodeType::Code39,
            5 | 70 => BarcodeType::Itf,
            71 => BarcodeType::Codabar,
            72 => BarcodeType::Code93,
            _ => BarcodeType::Code128,
        };
        self.finish_line();
        let e = ReceiptElement::Barcode {
            data: copy_range(s, start, stop),
            barcode_type,
            height: self.symbols.barcode_height,
            module_width: self.symbols.barcode_module_width,
            hri_position: self.symbols.barcode_hri_position,
            alignment: self.state.alignment,
            offset: self.state.horizontal_offset,
            print_area_width: self.state.print_area_width,
        };
        self.print_element(e);
    }

    /// `ESC d n`: prints the line and feeds, `n` lines in all.
    fn feed_lines(&mut self, n: u8)
        requires
            decodable_len(old(self)@.line.len()),
        ensures
            final(self)@ == feed_lines(old(self)@, n as nat),
    {
        let mut left: u8 = n;
        while left > 0
            invariant
                decodable_len(self@.line.len()),
                feed_lines(self@, left as nat) == feed_lines(old(self)@, n as nat),
            decreases left,
        {
            self.feed_line();
            left -= 1;
        }
    }

    /// `ESC J n`: prints the line and feeds `n` dots, shown as blank lines.
    fn feed_dots(&mut self, dots: u8)
        requires
            decodable_len(old(self)@.line.len()),
        ensures
            forall|d: DeviceView|
                final(self)@ == #[trigger] apply(old(self)@, d, Command::FeedDots(dots)),
    {
        self.finish_line();
        let ghost f = self@;
        let count: usize = min_usize((dots as usize + 23) / 24, 4);
        let mut k: usize = 0;
        assert(f.elements + separators(0) =~= f.elements);
        while k < count
            invariant
                k <= count,
                self@ == (RendererView { elements: f.elements + separators(k as nat), ..f }),
            decreases count - k,
        {
            self.push_element(ReceiptElement::Separator);
            k += 1;
            assert(self@.elements =~= f.elements + separators(k as nat));
        }
    }

    /// An ESC command with one parameter byte.
    fn short_esc_command(&mut self, code: u8, n: u8)
        requires
            decodable_len(old(self)@.line.len()),
        ensures
            forall|d: DeviceView|
                final(self)@ == #[trigger] apply(old(self)@, d, esc_short_command(code, n)),
    {
        match read_esc_setting(code, n) {
            Some(setting) => self.state.set(setting),
            None => if code == ESC_FEED_LINES {
                self.feed_lines(n);
            } else if code == ESC_FEED_DOTS {
                self.feed_dots(n);
            },
        }
    }

    /// `ESC @`.
    fn initialize(&mut self)
        ensures
            final(self)@ == initialized(old(self)@),
    {
        self.state = PrinterState::default();
        self.symbols.barcode_hri_position = HriPosition::Hidden;
        self.symbols.barcode_height = 162;
        self.symbols.barcode_module_width = 3;
        self.symbols.pdf417_module_width = 3;
        self.symbols.pdf417_error_correction = 1;
        self.symbols.pdf417_columns = 0;
        self.symbols.pdf417_rows = 0;
        self.symbols.pdf417_truncated = false;
        self.symbols.datamatrix_module_size = 3;
    }

    /// `ESC p`: opens the cash drawer.
    fn open_drawer(&mut self, device: &mut Device, pin: u8, on_time: u8, off_time: u8)
        ensures
            final(self)@ == apply(
                old(self)@,
                old(device)@,
                (Command::OpenDrawer { pin, on_time, off_time }),
            ),
            final(device)@ == apply_device(
                old(device)@,
                (Command::OpenDrawer { pin, on_time, off_time }),
            ),
    {
        device.printer_status.drawer_open = true;
        self.push_element(ReceiptElement::CashDrawer { pin, on_time, off_time });
    }

    /// Carries out the ESC command at `data[i]`. Gives the position behind it, or
    /// `None`, with nothing changed, where its bytes are not all there.
    #[verifier::rlimit(30)]
    pub fn handle_esc_command(&mut self, device: &mut Device, data: &[u8], i: usize) -> (r: Option<
        usize,
    >)
        requires
            1 <= i < data.len(),
            decodable_len(old(self)@.line.len()),
            esc_span(data@.skip(i - 1)) !is Overrun,
        ensures
            match esc_span(data@.skip(i - 1)) {
                Span::Ends(e) => {
                    &&& r == Some((i - 1 + e) as usize)
                    &&& final(self)@ == apply(
                        old(self)@,
                        old(device)@,
                        esc_command(data@.skip(i - 1)),
                    )
                    &&& final(device)@ == apply_device(
                        old(device)@,
                        esc_command(data@.skip(i - 1)),
                    )
                },
                _ => r is None && final(self)@ == old(self)@ && final(device)@ == old(device)@,
            },
            r matches Some(next) ==> i < next <= data.len(),
            r is None ==> data@[i as int] == ESC_BIT_IMAGE,
            keeps_queues(old(self)@, final(self)@),
            final(self)@.symbols.qr_size == old(self)@.symbols.qr_size,
            final(device)@.nv_images == old(device)@.nv_images,
            final(device)@.log == old(device)@.log,
    {
        let s = slice_subrange(data, i - 1, data.len());
        assert(s@ =~= data@.skip(i - 1));
        proof {
            esc_span_bounds(s@);
            esc_keeps_queues(self@, device@, s@);
        }
        if s[1] == ESC_BIT_IMAGE {
            return self.handle_raster_graphics(data, i + 1);
        }
        match esc_extent(s) {
            Extent::Ends(e) => {
                match s[1] {
                    ESC_INITIALIZE => {
                        self.initialize();
                    },
                    ESC_DEFAULT_SPACING => {
                        self.state.set(Setting::LineSpacing(30));
                    },
                    ESC_DRAWER => if s.len() >= 5 {
                        self.open_drawer(device, s[2], s[3], s[4]);
                    },
                    ESC_POSITION => if s.len() >= 4 {
                        self.state.set(Setting::Position(read_le16(s, 2) as u16));
                    },
                    ESC_MOVE => if s.len() >= 4 {
                        self.state.set(Setting::Move(read_le16(s, 2) as u16));
                    },
                    _ => if s.len() >= 3 {
                        self.short_esc_command(s[1], s[2]);
                    },
                }
                Some(i - 1 + e)
            },
            _ => None,
        }
    }

    fn push_response(&mut self, byte: u8)
        ensures
            final(self)@ == (RendererView {
                responses: old(self)@.responses.push(byte),
                ..old(self)@
            }),
    {
        self.response_queue.push(byte);
    }

    /// `GS a n`: queues the automatic status, unless it is switched off.
    fn queue_automatic_status(&mut self, status: &PrinterStatus, flags: u8)
        ensures
            forall|d: DeviceView|
                d.status == *status ==> final(self)@ == #[trigger] apply(
                    old(self)@,
                    d,
                    Command::StatusBack(flags),
                ),
    {
        if flags != 0 {
            let ghost before = self@;
            let drawer: u8 = if status.drawer_open {
                0x04
            } else {
                0
            };
            let offline: u8 = if status.online {
                0
            } else {
                0x08
            };
            let cover: u8 = if status.cover_closed {
                0
            } else {
                0x20
            };
            let paper: u8 = if status.paper_present {
                0
            } else {
                0x0C
            };
            self.push_response(0x10 + drawer + offline + cover);
            self.push_response(0x00);
            self.push_response(paper);
            self.push_response(0x00);
            assert(self@.responses =~= before.responses + automatic_status(*status));
        }
    }

    /// `GS I n`: queues the name of the manufacturer or of the model.
    fn queue_identification(&mut self, n: u8)
        ensures
            forall|d: DeviceView|
                final(self)@ == #[trigger] apply(old(self)@, d, Command::Identify(n)),
    {
        let ghost before = self@;
        if n == 0x42 {
            let block: [u8; 9] = [0x5f, 0x43, 0x49, 0x54, 0x49, 0x5A, 0x45, 0x4E, 0x00];
            self.response_queue.extend_from_slice(&block);
        } else if n == 0x43 {
            let block: [u8; 9] = [0x5f, 0x43, 0x54, 0x2D, 0x53, 0x33, 0x31, 0x30, 0x00];
            self.response_queue.extend_from_slice(&block);
        }
        assert(self@.responses =~= before.responses + identification(n));
    }

    /// A GS command with one parameter byte.
    fn short_gs_command(&mut self, status: &PrinterStatus, code: u8, n: u8)
        requires
            decodable_len(old(self)@.line.len()),
            code != GS_CUT,
        ensures
            forall|d: DeviceView|
                d.status == *status ==> final(self)@ == #[trigger] apply(
                    old(self)@,
                    d,
                    gs_short_command(code, n),
                ),
    {
        match code {
            GS_CHAR_SIZE => self.state.set(Setting::CharSize(n)),
            GS_INVERT => self.state.set(Setting::Inverted(n == 1)),
            GS_HRI => self.symbols.set(
                SymbolSetting::Hri(
                    match n {
                        1 => HriPosition::Above,
                        2 => HriPosition::Below,
                        3 => HriPosition::Both,
                        _ => HriPosition::Hidden,
                    },
                ),
            ),
            GS_BARCODE_HEIGHT => self.symbols.set(
                SymbolSetting::BarcodeHeight(clamp_byte(n, 1, 255)),
            ),
            GS_MODULE_WIDTH => self.symbols.set(
                SymbolSetting::BarcodeModuleWidth(clamp_byte(n, 1, 6)),
            ),
            GS_ASB => self.queue_automatic_status(status, n),
            GS_IDENTIFY => self.queue_identification(n),
            GS_STATUS => self.push_response(status.transmitted()),
            _ => {},
        }
    }

    /// Carries out the GS command at `data[i]`. Gives the position behind it, or
    /// `None`, with nothing changed, where its bytes are not all there.
    #[verifier::rlimit(30)]
    pub fn handle_gs_command(&mut self, device: &Device, data: &[u8], i: usize) -> (r: Option<
        usize,
    >)
        requires
            1 <= i < data.len(),
            decodable_len(old(self)@.line.len()),
            old(self)@.qr_data.len() <= MAX_SYMBOL_BYTES,
            gs_span(data@.skip(i - 1)) !is Overrun,
        ensures
            match gs_span(data@.skip(i - 1)) {
                Span::Ends(e) => {
                    &&& r == Some((i - 1 + e) as usize)
                    &&& final(self)@ == apply(old(self)@, device@, gs_command(data@.skip(i - 1)))
                },
                _ => r is None && final(self)@ == old(self)@,
            },
            settings_wf(old(self)@) ==> settings_wf(final(self)@),
            i + 1 < data.len() && data@[i as int] == GS_MODULE_WIDTH ==>
                final(self)@.symbols.barcode_module_width == clamp_u8(data@[i + 1], 1, 6),
            i + 1 < data.len() && data@[i as int] == GS_BARCODE_HEIGHT ==>
                final(self)@.symbols.barcode_height == clamp_u8(data@[i + 1], 1, 255),
            i + 1 < data.len() && data@[i as int] == GS_HRI ==>
                final(self)@.symbols.barcode_hri_position == hri_of(data@[i + 1]),
    {
        let s = slice_subrange(data, i - 1, data.len());
        assert(s@ =~= data@.skip(i - 1));
        proof {
            gs_span_bounds(s@);
            gs_keeps_settings(self@, device@, s@);
        }
        if s.len() > 2 {
            if s[1] == GS_EXTENDED_LONG && s[2] == GS_8_GRAPHICS {
                return self.handle_gs_8l(data, i + 1);
            }
            if s[1] == GS_RASTER {
                return self.handle_raster_graphics_gs(data, i + 1);
            }
            if s[1] == GS_EXTENDED && s[2] == GS_PAREN_SYMBOL {
                return self.handle_gs_paren_k(data, i + 1);
            }
            if s[1] == GS_CUT {
                return Some(self.handle_paper_cut(data, i + 1));
            }
        }
        match gs_extent(s) {
            Extent::Ends(e) => {
                match s[1] {
                    GS_LEFT_MARGIN => if s.len() >= 4 {
                        self.state.set(Setting::LeftMargin(read_le16(s, 2) as u16));
                    },
                    GS_AREA_WIDTH => if s.len() >= 4 {
                        self.state.set(Setting::AreaWidth(read_le16(s, 2) as u16));
                    },
                    GS_BARCODE => self.print_barcode(s),
                    GS_EXTENDED_LONG | GS_EXTENDED | GS_RASTER | GS_CUT => {},
                    _ => if s.len() >= 3 {
                        self.short_gs_command(&device.printer_status, s[1], s[2]);
                    },
                }
                Some(i - 1 + e)
            },
            _ => None,
        }
    }

    /// `FS p n m`: prints the NV image of a slot, if it is defined.
    fn print_nv_image(&mut self, device: &Device, slot: u8)
        requires
            decodable_len(old(self)@.line.len()),
        ensures
            final(self)@ == apply(old(self)@, device@, Command::PrintNv(slot)),
    {
        match device.nv_images.get(&slot) {
            Some(image) => {
                let data = copy_range(image.data.as_slice(), 0, image.data.len());
                assert(data@ =~= image.data@);
                self.print_image(image.width, image.height, bytes_for_dots(image.width), data);
            },
            None => {},
        }
    }

    /// Carries out the FS command at `data[i]` and gives the position behind it.
    pub fn handle_fs_command(&mut self, device: &mut Device, data: &[u8], i: usize) -> (r: usize)
        requires
            1 <= i < data.len(),
            decodable_len(old(self)@.line.len()),
            fs_span(data@.skip(i - 1)) !is Overrun,
        ensures
            fs_span(data@.skip(i - 1)) == Span::Ends(r - (i - 1)),
            final(self)@ == apply(old(self)@, old(device)@, fs_command(data@.skip(i - 1))),
            final(device)@ == apply_device(old(device)@, fs_command(data@.skip(i - 1))),
    {
        let s = slice_subrange(data, i - 1, data.len());
        assert(s@ =~= data@.skip(i - 1));
        proof {
            fs_span_bounds(s@);
        }
        match s[1] {
            FS_PRINT_NV => if s.len() >= 4 {
                self.print_nv_image(device, s[2]);
            },
            FS_DEFINE_NV => if s.len() >= 3 {
                device.define_nv_images(s);
            },
            _ => {},
        }
        match fs_extent(s) {
            Extent::Ends(e) => i - 1 + e,
            _ => i,
        }
    }

    /// A command that is a single control byte, or DC2 with its parameter, or
    /// DLE; `s` starts with it.
    fn handle_control(&mut self, device: &Device, s: &[u8])
        requires
            s.len() > 0,
            span(s@) is Ends,
            !is_logged(s@[0]),
            decodable_len(old(self)@.line.len()),
        ensures
            final(self)@ == apply(old(self)@, device@, command(s@)),
    {
        proof {
            reveal(span);
            reveal(command);
        }
        match s[0] {
            DLE => if s.len() >= 3 && (s[1] == EOT || s[1] == ENQ) {
                self.push_response(device.printer_status.real_time());
            },
            DC2 => if s.len() > 1 && s[1] == DC2_DENSITY {
                if s.len() > 2 {
                    self.state.set(Setting::Density(s[2] / 32));
                }
            } else {
                self.state.set(Setting::Bold(false));
            },
            BS => {
                self.erase_byte();
            },
            LF => {
                self.in_command_sequence = false;
                self.last_was_binary = false;
                self.feed_line();
            },
            CR => {
                self.in_command_sequence = false;
                self.last_was_binary = false;
                self.finish_line();
            },
            FF => {
                self.feed_form();
            },
            HT => {
                self.tabulate();
            },
            0x20..=0x7E | 0x80..=0xFF => {
                if !self.in_command_sequence && !self.last_was_binary {
                    self.current_line.push(s[0]);
                }
            },
            // Flow control, shifts and separators have no effect here.
            SOH | STX | ETX | EOT | ENQ | ACK | BEL | VT | SO | SI | DC1 | DC3 | DC4 | ETB | CAN
            | RS | DEL => {},
            _ => {},
        }
    }

    fn erase_byte(&mut self)
        ensures
            final(self)@ == (RendererView { line: without_last(old(self)@.line), ..old(self)@ }),
    {
        if !self.current_line.is_empty() {
            self.current_line.pop();
            assert(self@.line =~= old(self)@.line.drop_last());
        }
    }

    /// FF: drops the line, and ends the form unless it has just ended.
    fn feed_form(&mut self)
        ensures
            forall|d: DeviceView|
                final(self)@ == #[trigger] apply(old(self)@, d, Command::FormFeed),
    {
        self.current_line.clear();
        assert(self@.line =~= Seq::empty());
        let n: usize = self.elements.len();
        let at_form_end: bool = n > 0 && matches!(self.elements[n - 1], ReceiptElement::FormFeed);
        if !at_form_end {
            self.push_element(ReceiptElement::FormFeed);
        }
    }

    /// HT: four spaces.
    fn tabulate(&mut self)
        ensures
            forall|d: DeviceView| final(self)@ == #[trigger] apply(old(self)@, d, Command::Tab),
    {
        if !self.in_command_sequence {
            let spaces: [u8; 4] = [0x20, 0x20, 0x20, 0x20];
            self.current_line.extend_from_slice(&spaces);
            assert(self@.line =~= old(self)@.line + seq![0x20u8, 0x20u8, 0x20u8, 0x20u8]);
        }
    }

    fn process_esc(&mut self, device: &mut Device, data: &[u8], i: usize)
        requires
            i + 1 < data.len(),
            data@[i as int] == ESC,
            span(data@.skip(i as int)) is Ends,
            decodable_len(old(self)@.line.len()),
            old(self)@.qr_data.len() <= MAX_SYMBOL_BYTES,
        ensures
            machine(*final(self), *final(device)) == step(
                machine(*old(self), *old(device)),
                data@.skip(i as int),
            ),
    {
        assert(data@.skip(i + 1 - 1) =~= data@.skip(i as int));
        assert(data@.skip(i as int)[0] == ESC);
        proof {
            reveal(span);
            reveal(step);
            reveal(command);
        }
        self.handle_esc_command(device, data, i + 1);
        device.log_command(ESC, data[i + 1]);
        self.in_command_sequence = false;
    }

    fn process_gs(&mut self, device: &mut Device, data: &[u8], i: usize)
        requires
            i + 1 < data.len(),
            data@[i as int] == GS,
            span(data@.skip(i as int)) is Ends,
            decodable_len(old(self)@.line.len()),
            old(self)@.qr_data.len() <= MAX_SYMBOL_BYTES,
        ensures
            machine(*final(self), *final(device)) == step(
                machine(*old(self), *old(device)),
                data@.skip(i as int),
            ),
    {
        assert(data@.skip(i + 1 - 1) =~= data@.skip(i as int));
        assert(data@.skip(i as int)[0] == GS);
        proof {
            reveal(span);
            reveal(step);
            reveal(command);
        }
        self.handle_gs_command(device, data, i + 1);
        device.log_command(GS, data[i + 1]);
        self.in_command_sequence = false;
    }

    fn process_fs(&mut self, device: &mut Device, data: &[u8], i: usize)
        requires
            i + 1 < data.len(),
            data@[i as int] == FS,
            span(data@.skip(i as int)) is Ends,
            decodable_len(old(self)@.line.len()),
            old(self)@.qr_data.len() <= MAX_SYMBOL_BYTES,
        ensures
            machine(*final(self), *final(device)) == step(
                machine(*old(self), *old(device)),
                data@.skip(i as int),
            ),
    {
        assert(data@.skip(i + 1 - 1) =~= data@.skip(i as int));
        assert(data@.skip(i as int)[0] == FS);
        proof {
            reveal(span);
            reveal(step);
            reveal(command);
        }
        self.handle_fs_command(device, data, i + 1);
        device.log_command(FS, data[i + 1]);
        self.in_command_sequence = false;
    }

    /// Carries out the complete command that is at `data[i]`.
    fn process_command(&mut self, device: &mut Device, data: &[u8], i: usize)
        requires
            i < data.len(),
            span(data@.skip(i as int)) is Ends,
            decodable_len(old(self)@.line.len()),
            old(self)@.qr_data.len() <= MAX_SYMBOL_BYTES,
        ensures
            machine(*final(self), *final(device)) == step(
                machine(*old(self), *old(device)),
                data@.skip(i as int),
            ),
    {
        proof {
            reveal(span);
            reveal(step);
            reveal(command);
        }
        match data[i] {
            ESC => self.process_esc(device, data, i),
            GS => self.process_gs(device, data, i),
            FS => self.process_fs(device, data, i),
            _ => {
                let s = slice_subrange(data, i, data.len());
                assert(s@ =~= data@.skip(i as int));
                self.handle_control(device, s);
                if data[i] == DLE {
                    self.in_command_sequence = false;
                }
            },
        }
    }

    /// Whether `process_data` can take the bytes: no command overruns them, and
    /// the text that they can add to the line fits in memory.
    pub fn accepts(&self, new_data: &[u8]) -> (r: bool)
        ensures
            r <==> {
                &&& well_framed(self@.pending + new_data@)
                &&& decodable_len(self@.line.len() + 4 * (self@.pending.len() + new_data@.len()))
            },
    {
        let limit: usize = usize::MAX / 16;
        if self.buffer.len() > limit / 4 || new_data.len() > limit / 4 {
            return false;
        }
        let most: usize = 4 * (self.buffer.len() + new_data.len());
        if most > limit || self.current_line.len() > limit - most {
            return false;
        }
        let mut data: Vec<u8> = self.buffer.clone();
        data.extend_from_slice(new_data);
        assert(data@ =~= self@.pending + new_data@);
        check_framing(data.as_slice())
    }

    /// How many of the bytes come before a command that overruns them: all, where
    /// none does.
    pub fn bytes_before_overrun(&self, new_data: &[u8]) -> (r: usize)
        ensures
            r == minus(overrun_at(self@.pending + new_data@), self@.pending.len() as int),
            r <= new_data.len(),
    {
        let mut data: Vec<u8> = self.buffer.clone();
        data.extend_from_slice(new_data);
        assert(data@ =~= self@.pending + new_data@);
        minus_usize(find_overrun(data.as_slice()), self.buffer.len())
    }

    /// Takes new bytes in: carries out every command that is complete, and keeps
    /// the rest until more bytes arrive. Text is printed by the commands that
    /// end a line only, so it does not matter where a line is cut in two.
    pub fn process_data(&mut self, device: &mut Device, new_data: &[u8])
        requires
            machine_wf(machine(*old(self), *old(device))),
            well_framed(old(self)@.pending + new_data@),
            decodable_len(
                old(self)@.line.len() + 4 * (old(self)@.pending.len() + new_data@.len()),
            ),
        ensures
            machine(*final(self), *final(device)) == feed(
                machine(*old(self), *old(device)),
                new_data@,
            ),
            machine_wf(machine(*final(self), *final(device))),
    {
        let ghost start = machine(*self, *device);
        let mut data: Vec<u8> = self.buffer.clone();
        data.extend_from_slice(new_data);
        let ghost stream = old(self)@.pending + new_data@;
        assert(data@ =~= stream);
        assert(stream.skip(0) =~= stream);
        proof {
            feed_keeps_wf(start, new_data@);
            if start.renderer.in_command {
                assert(stream[0] == start.renderer.pending[0]);
            }
        }
        let mut i: usize = 0;
        let mut waiting_for_more: bool = false;
        while i < data.len() && !waiting_for_more
            invariant
                data@ == stream,
                i <= data.len(),
                renderer_wf(self@),
                device_wf(device@),
                well_framed(stream.skip(i as int)),
                leftover(stream.skip(i as int)) == leftover(stream),
                decodable_len(self@.line.len() + 4 * (stream.len() - i) as nat),
                waiting_for_more ==> {
                    &&& machine(*self, *device) == run(start, stream)
                    &&& leftover(stream.skip(i as int)) == stream.skip(i as int)
                },
                !waiting_for_more ==> {
                    &&& run(machine(*self, *device), stream.skip(i as int)) == run(start, stream)
                    &&& waits_for(self@.in_command, stream.skip(i as int))
                },
            decreases
                    data.len() - i + (if waiting_for_more {
                        0int
                    } else {
                        1int
                    }),
        {
            let s = slice_subrange(data.as_slice(), i, data.len());
            let ghost rest = stream.skip(i as int);
            assert(s@ =~= rest);
            proof {
                span_bounds(rest);
            }
            match extent(s) {
                Extent::Ends(e) => {
                    proof {
                        step_keeps_wf(machine(*self, *device), rest);
                        assert(rest.skip(e as int) =~= stream.skip(i + e));
                    }
                    self.process_command(device, data.as_slice(), i);
                    i += e;
                },
                _ => {
                    let first: u8 = s[0];
                    if first == ESC || first == GS || first == FS || first == DLE {
                        self.in_command_sequence = true;
                    }
                    waiting_for_more = true;
                },
            }
        }
        self.buffer = copy_range(data.as_slice(), i, data.len());
        assert(self.buffer@ =~= leftover(stream));
    }
}

} // verus!
