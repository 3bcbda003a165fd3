//! State of the printer: formatting, symbol settings, and what all connections
//! share.

use vstd::prelude::*;
use std::collections::HashMap;
use crate::codepage::{TextEncoding, encoding_for, selected_encoding};
use crate::codes::{
    ESC, FS, GS, SYMBOL_DATAMATRIX, SYMBOL_PDF417, SYMBOL_QR, clamp_byte, clamp_u8, copy_range,
    le16, read_le16,
};
use crate::element::{Alignment, ElementView, HriPosition, ReceiptElement};
use crate::framing::{lemma_product16, nv_bytes, nv_image_end, nv_image_stop};
use crate::model::step;

verus! {

/// Formatting that commands change and printed elements take over.
#[derive(Debug, Clone, Copy, PartialEq, Eq, Structural)]
pub struct PrinterState {
    pub bold: bool,
    pub underline: bool,
    pub double_width: bool,
    pub double_height: bool,
    pub inverted: bool,
    pub alignment: Alignment,
    pub print_density: u8,
    pub encoding: TextEncoding,
    pub code_page: u8,
    pub horizontal_offset: u16,
    pub left_margin: u16,
    /// Zero stands for the full width.
    pub print_area_width: u16,
    pub line_spacing: u8,
    pub character_spacing: u8,
    pub double_strike: bool,
    /// Zero is font A, one is font B, and so on.
    pub font: u8,
}

/// Settings of barcodes and two-dimensional symbols.
#[derive(Debug, Clone, Copy, PartialEq, Eq, Structural)]
pub struct SymbolSettings {
    pub qr_size: u8,
    pub qr_error_correction: u8,
    pub barcode_hri_position: HriPosition,
    pub barcode_height: u8,
    pub barcode_module_width: u8,
    pub pdf417_columns: u8,
    pub pdf417_rows: u8,
    pub pdf417_module_width: u8,
    pub pdf417_error_correction: u8,
    pub pdf417_truncated: bool,
    pub datamatrix_module_size: u8,
}

/// A change of the formatting.
#[derive(Debug, Clone, Copy, PartialEq, Eq, Structural)]
pub enum Setting {
    Bold(bool),
    Underline(bool),
    Align(Alignment),
    /// The bits of `ESC !`.
    PrintMode(u8),
    Density(u8),
    CharSpacing(u8),
    Position(u16),
    /// A relative move of the position, in two's complement.
    Move(u16),
    CodePage(u8),
    Font(u8),
    LineSpacing(u8),
    DoubleStrike(bool),
    /// The bits of `GS !`.
    CharSize(u8),
    Inverted(bool),
    LeftMargin(u16),
    AreaWidth(u16),
}

/// A change of the symbol settings.
#[derive(Debug, Clone, Copy, PartialEq, Eq, Structural)]
pub enum SymbolSetting {
    Hri(HriPosition),
    BarcodeHeight(u8),
    BarcodeModuleWidth(u8),
    /// A parameter of `GS ( k`.
    Parameter { family: u8, function: u8, value: u8 },
}

/// Sensors and switches of the printer.
#[derive(Debug, Clone, Copy, PartialEq, Eq, Structural)]
pub struct PrinterStatus {
    pub paper_present: bool,
    pub cover_closed: bool,
    pub drawer_open: bool,
    pub online: bool,
}

/// An image in the printer's non-volatile memory.
#[derive(Debug, Clone)]
pub struct NvBitImage {
    pub width: usize,
    pub height: usize,
    pub data: Vec<u8>,
}

/// A command as the inspector lists it.
#[derive(Debug, Clone)]
pub struct CommandLogEntry {
    pub hex: String,
    pub description: String,
}

/// What all connections share: the sensors, the NV images and the command log.
#[derive(Debug, Clone)]
pub struct Device {
    pub printer_status: PrinterStatus,
    pub nv_images: HashMap<u8, NvBitImage>,
    pub command_log: Vec<CommandLogEntry>,
}

#[verifier::ext_equal]
pub struct NvImageView {
    pub width: int,
    pub height: int,
    pub data: Seq<u8>,
}

#[verifier::ext_equal]
pub struct LogEntryView {
    pub hex: Seq<char>,
    pub description: Seq<char>,
}

#[verifier::ext_equal]
pub struct DeviceView {
    pub status: PrinterStatus,
    pub nv_images: Map<u8, NvImageView>,
    pub log: Seq<LogEntryView>,
}

impl View for NvBitImage {
    type V = NvImageView;

    open spec fn view(&self) -> NvImageView {
        NvImageView { width: self.width as int, height: self.height as int, data: self.data@ }
    }
}

impl View for CommandLogEntry {
    type V = LogEntryView;

    open spec fn view(&self) -> LogEntryView {
        LogEntryView { hex: self.hex@, description: self.description@ }
    }
}

/// The views of the NV images, slot by slot.
pub open spec fn nv_views(images: Map<u8, NvBitImage>) -> Map<u8, NvImageView> {
    Map::new(|slot: u8| images.contains_key(slot), |slot: u8| images[slot]@)
}

/// The views of the log entries.
pub open spec fn log_views(log: Seq<CommandLogEntry>) -> Seq<LogEntryView> {
    Seq::new(log.len(), |k: int| log[k]@)
}

impl View for Device {
    type V = DeviceView;

    open spec fn view(&self) -> DeviceView {
        DeviceView {
            status: self.printer_status,
            nv_images: nv_views(self.nv_images@),
            log: log_views(self.command_log@),
        }
    }
}

/// The formatting after power-on and after `ESC @`.
pub open spec fn default_state() -> PrinterState {
    PrinterState {
        bold: false,
        underline: false,
        double_width: false,
        double_height: false,
        inverted: false,
        alignment: Alignment::Left,
        print_density: 4,
        encoding: TextEncoding::Utf8,
        code_page: 0,
        horizontal_offset: 0,
        left_margin: 0,
        print_area_width: 0,
        line_spacing: 30,
        character_spacing: 0,
        double_strike: false,
        font: 0,
    }
}

/// The symbol settings after power-on.
pub open spec fn default_symbols() -> SymbolSettings {
    SymbolSettings {
        qr_size: 3,
        qr_error_correction: 0,
        barcode_hri_position: HriPosition::Hidden,
        barcode_height: 162,
        barcode_module_width: 3,
        pdf417_columns: 0,
        pdf417_rows: 0,
        pdf417_module_width: 3,
        pdf417_error_correction: 1,
        pdf417_truncated: false,
        datamatrix_module_size: 3,
    }
}

/// The sensors of a printer that is ready.
pub open spec fn default_status() -> PrinterStatus {
    PrinterStatus { paper_present: true, cover_closed: true, drawer_open: false, online: true }
}

/// The print mode bits of `ESC !`.
pub open spec fn with_print_mode(state: PrinterState, mode: u8) -> PrinterState {
    PrinterState {
        bold: mode & 0x08 != 0,
        double_height: mode & 0x10 != 0,
        double_width: mode & 0x20 != 0,
        underline: mode & 0x80 != 0,
        ..state
    }
}

/// The character size of `GS !`: width in the lower three bits, height in bits
/// four to six.
pub open spec fn with_char_size(state: PrinterState, mode: u8) -> PrinterState {
    PrinterState { double_width: mode % 8 > 0, double_height: (mode / 16) % 8 > 0, ..state }
}

/// A number of 16 bits in two's complement.
pub open spec fn signed16(n: u16) -> int {
    if n < 0x8000 {
        n as int
    } else {
        n - 0x1_0000
    }
}

/// The horizontal offset after a relative move to the right or to the left: the
/// sum, not below zero and not above what an offset can be.
pub open spec fn moved_offset(offset: u16, by: u16) -> u16 {
    let sum = offset + signed16(by);
    if sum < 0 {
        0
    } else if sum > u16::MAX {
        u16::MAX
    } else {
        sum as u16
    }
}

/// The formatting after a change.
pub open spec fn with_setting(state: PrinterState, setting: Setting) -> PrinterState {
    match setting {
        Setting::Bold(bold) => PrinterState { bold, ..state },
        Setting::Underline(underline) => PrinterState { underline, ..state },
        Setting::Align(alignment) => PrinterState { alignment, ..state },
        Setting::PrintMode(mode) => with_print_mode(state, mode),
        Setting::Density(print_density) => PrinterState { print_density, ..state },
        Setting::CharSpacing(character_spacing) => PrinterState { character_spacing, ..state },
        Setting::Position(horizontal_offset) => PrinterState { horizontal_offset, ..state },
        Setting::Move(by) => PrinterState {
            horizontal_offset: moved_offset(state.horizontal_offset, by),
            ..state
        },
        Setting::CodePage(code_page) => PrinterState {
            code_page,
            encoding: selected_encoding(code_page),
            ..state
        },
        Setting::Font(font) => PrinterState { font, ..state },
        Setting::LineSpacing(line_spacing) => PrinterState { line_spacing, ..state },
        Setting::DoubleStrike(double_strike) => PrinterState { double_strike, ..state },
        Setting::CharSize(mode) => with_char_size(state, mode),
        Setting::Inverted(inverted) => PrinterState { inverted, ..state },
        Setting::LeftMargin(left_margin) => PrinterState { left_margin, ..state },
        Setting::AreaWidth(print_area_width) => PrinterState { print_area_width, ..state },
    }
}

/// The symbol settings after a parameter of `GS ( k`.
pub open spec fn with_symbol_parameter(
    symbols: SymbolSettings,
    family: u8,
    function: u8,
    value: u8,
) -> SymbolSettings {
    if family == SYMBOL_PDF417 {
        match function {
            65 => SymbolSettings { pdf417_columns: value, ..symbols },
            66 => SymbolSettings { pdf417_rows: value, ..symbols },
            67 => SymbolSettings { pdf417_module_width: clamp_u8(value, 1, 8), ..symbols },
            69 => SymbolSettings { pdf417_error_correction: value, ..symbols },
            70 => SymbolSettings { pdf417_truncated: value == 1, ..symbols },
            _ => symbols,
        }
    } else if family == SYMBOL_QR {
        match function {
            67 => SymbolSettings { qr_size: value, ..symbols },
            69 => SymbolSettings { qr_error_correction: value, ..symbols },
            _ => symbols,
        }
    } else if family == SYMBOL_DATAMATRIX && function == 67 {
        SymbolSettings { datamatrix_module_size: clamp_u8(value, 1, 8), ..symbols }
    } else {
        symbols
    }
}

/// The symbol settings after a change.
pub open spec fn with_symbol_setting(symbols: SymbolSettings, setting: SymbolSetting) -> SymbolSettings {
    match setting {
        SymbolSetting::Hri(barcode_hri_position) => SymbolSettings {
            barcode_hri_position,
            ..symbols
        },
        SymbolSetting::BarcodeHeight(barcode_height) => SymbolSettings {
            barcode_height,
            ..symbols
        },
        SymbolSetting::BarcodeModuleWidth(barcode_module_width) => SymbolSettings {
            barcode_module_width,
            ..symbols
        },
        SymbolSetting::Parameter { family, function, value } => with_symbol_parameter(
            symbols,
            family,
            function,
            value,
        ),
    }
}

/// A printed line of text.
pub open spec fn text_element(state: PrinterState, content: Seq<char>) -> ElementView {
    ElementView::Text {
        content,
        bold: state.bold,
        underline: state.underline,
        double_width: state.double_width,
        double_height: state.double_height,
        inverted: state.inverted,
        alignment: state.alignment,
        density: state.print_density,
        offset: state.horizontal_offset,
        left_margin: state.left_margin,
        character_spacing: state.character_spacing,
        double_strike: state.double_strike,
        font: state.font,
        print_area_width: state.print_area_width,
    }
}

impl Default for PrinterState {
    fn default() -> (r: Self)
        ensures
            r == default_state(),
    {
        PrinterState {
            bold: false,
            underline: false,
            double_width: false,
            double_height: false,
            inverted: false,
            alignment: Alignment::Left,
            print_density: 4,
            encoding: TextEncoding::Utf8,
            code_page: 0,
            horizontal_offset: 0,
            left_margin: 0,
            print_area_width: 0,
            line_spacing: 30,
            character_spacing: 0,
            double_strike: false,
            font: 0,
        }
    }
}

/// The horizontal offset after a relative move.
fn move_offset(offset: u16, by: u16) -> (r: u16)
    ensures
        r == moved_offset(offset, by),
{
    let step: i32 = if by < 0x8000 {
        by as i32
    } else {
        by as i32 - 0x1_0000
    };
    let sum: i32 = offset as i32 + step;
    if sum < 0 {
        0
    } else if sum > 0xFFFF {
        0xFFFF
    } else {
        sum as u16
    }
}

impl PrinterState {
    /// Changes the formatting.
    pub fn set(&mut self, setting: Setting)
        ensures
            *final(self) == with_setting(*old(self), setting),
    {
        match setting {
            Setting::Bold(on) => {
                self.bold = on;
            },
            Setting::Underline(on) => {
                self.underline = on;
            },
            Setting::Align(alignment) => {
                self.alignment = alignment;
            },
            Setting::PrintMode(mode) => {
                self.bold = mode & 0x08 != 0;
                self.double_height = mode & 0x10 != 0;
                self.double_width = mode & 0x20 != 0;
                self.underline = mode & 0x80 != 0;
            },
            Setting::Density(n) => {
                self.print_density = n;
            },
            Setting::CharSpacing(n) => {
                self.character_spacing = n;
            },
            Setting::Position(n) => {
                self.horizontal_offset = n;
            },
            Setting::Move(by) => {
                self.horizontal_offset = move_offset(self.horizontal_offset, by);
            },
            Setting::CodePage(n) => {
                self.code_page = n;
                self.encoding = encoding_for(n);
            },
            Setting::Font(n) => {
                self.font = n;
            },
            Setting::LineSpacing(n) => {
                self.line_spacing = n;
            },
            Setting::DoubleStrike(on) => {
                self.double_strike = on;
            },
            Setting::CharSize(mode) => {
                self.double_width = mode % 8 > 0;
                self.double_height = (mode / 16) % 8 > 0;
            },
            Setting::Inverted(on) => {
                self.inverted = on;
            },
            Setting::LeftMargin(n) => {
                self.left_margin = n;
            },
            Setting::AreaWidth(n) => {
                self.print_area_width = n;
            },
        }
    }

    /// The element that a line of decoded text is printed as.
    pub fn text_element(&self, content: String) -> (r: ReceiptElement)
        ensures
            r@ == text_element(*self, content@),
    {
        ReceiptElement::Text {
            content,
            bold: self.bold,
            underline: self.underline,
            double_width: self.double_width,
            double_height: self.double_height,
            inverted: self.inverted,
            alignment: self.alignment,
            density: self.print_density,
            offset: self.horizontal_offset,
            left_margin: self.left_margin,
            character_spacing: self.character_spacing,
            double_strike: self.double_strike,
            font: self.font,
            print_area_width: self.print_area_width,
        }
    }
}

impl SymbolSettings {
    fn set_parameter(&mut self, family: u8, function: u8, value: u8)
        ensures
            *final(self) == with_symbol_parameter(*old(self), family, function, value),
    {
        if family == SYMBOL_PDF417 {
            match function {
                65 => {
                    self.pdf417_columns = value;
                },
                66 => {
                    self.pdf417_rows = value;
                },
                67 => {
                    self.pdf417_module_width = clamp_byte(value, 1, 8);
                },
                69 => {
                    self.pdf417_error_correction = value;
                },
                70 => {
                    self.pdf417_truncated = value == 1;
                },
                _ => {},
            }
        } else if family == SYMBOL_QR {
            match function {
                67 => {
                    self.qr_size = value;
                },
                69 => {
                    self.qr_error_correction = value;
                },
                _ => {},
            }
        } else if family == SYMBOL_DATAMATRIX && function == 67 {
            self.datamatrix_module_size = clamp_byte(value, 1, 8);
        }
    }

    /// Changes the symbol settings.
    pub fn set(&mut self, setting: SymbolSetting)
        ensures
            *final(self) == with_symbol_setting(*old(self), setting),
    {
        match setting {
            SymbolSetting::Hri(position) => {
                self.barcode_hri_position = position;
            },
            SymbolSetting::BarcodeHeight(n) => {
                self.barcode_height = n;
            },
            SymbolSetting::BarcodeModuleWidth(n) => {
                self.barcode_module_width = n;
            },
            SymbolSetting::Parameter { family, function, value } => {
                self.set_parameter(family, function, value);
            },
        }
    }
}

impl Default for SymbolSettings {
    fn default() -> (r: Self)
        ensures
            r == default_symbols(),
    {
        SymbolSettings {
            qr_size: 3,
            qr_error_correction: 0,
            barcode_hri_position: HriPosition::Hidden,
            barcode_height: 162,
            barcode_module_width: 3,
            pdf417_columns: 0,
            pdf417_rows: 0,
            pdf417_module_width: 3,
            pdf417_error_correction: 1,
            pdf417_truncated: false,
            datamatrix_module_size: 3,
        }
    }
}

/// The answer to `DLE EOT` and `DLE ENQ`: bit 1 always, bit 4 online, bit 5
/// cover open.
pub open spec fn real_time_status(st: PrinterStatus) -> u8 {
    if st.online {
        if st.cover_closed {
            0x12
        } else {
            0x32
        }
    } else {
        if st.cover_closed {
            0x02
        } else {
            0x22
        }
    }
}

/// The answer to `GS r`: bit 3 paper present, bit 4 offline.
pub open spec fn transmitted_status(st: PrinterStatus) -> u8 {
    if st.paper_present {
        if st.online {
            0x08
        } else {
            0x18
        }
    } else {
        if st.online {
            0x00
        } else {
            0x10
        }
    }
}

impl PrinterStatus {
    pub fn paper_label(&self) -> (r: &'static str)
        ensures
            r@ == (if self.paper_present {
                "Paper: OK"@
            } else {
                "Paper: OUT"@
            }),
    {
        if self.paper_present {
            "Paper: OK"
        } else {
            "Paper: OUT"
        }
    }

    pub fn cover_label(&self) -> (r: &'static str)
        ensures
            r@ == (if self.cover_closed {
                "Cover: Closed"@
            } else {
                "Cover: Open"@
            }),
    {
        if self.cover_closed {
            "Cover: Closed"
        } else {
            "Cover: Open"
        }
    }

    pub fn drawer_label(&self) -> (r: &'static str)
        ensures
            r@ == (if self.drawer_open {
                "Drawer: Open"@
            } else {
                "Drawer: Closed"@
            }),
    {
        if self.drawer_open {
            "Drawer: Open"
        } else {
            "Drawer: Closed"
        }
    }

    /// The answer to `DLE EOT` and `DLE ENQ`.
    pub fn real_time(&self) -> (r: u8)
        ensures
            r == real_time_status(*self),
    {
        let base: u8 = if self.online {
            0x12
        } else {
            0x02
        };
        if self.cover_closed {
            base
        } else {
            base + 0x20
        }
    }

    /// The answer to `GS r`.
    pub fn transmitted(&self) -> (r: u8)
        ensures
            r == transmitted_status(*self),
    {
        let base: u8 = if self.paper_present {
            0x08
        } else {
            0x00
        };
        if self.online {
            base
        } else {
            base + 0x10
        }
    }
}

impl Default for PrinterStatus {
    fn default() -> (r: Self)
        ensures
            r == default_status(),
    {
        PrinterStatus { paper_present: true, cover_closed: true, drawer_open: false, online: true }
    }
}

/// The NV image whose header is at `pos`.
pub open spec fn nv_image(s: Seq<u8>, pos: int) -> NvImageView {
    NvImageView {
        width: le16(s, pos) * 8,
        height: le16(s, pos + 2),
        data: s.subrange(pos + 4, pos + 4 + nv_bytes(s, pos)),
    }
}

/// `images` with the definitions of `count` slots from `slot` on, read from
/// `pos`. An image that is empty or cut short defines nothing.
pub open spec fn nv_table(
    images: Map<u8, NvImageView>,
    s: Seq<u8>,
    pos: int,
    slot: int,
    count: nat,
) -> Map<u8, NvImageView>
    decreases count,
{
    if count == 0 || pos + 4 > s.len() {
        images
    } else {
        nv_table(
            if 0 < nv_bytes(s, pos) && pos + 4 + nv_bytes(s, pos) <= s.len() {
                images.insert(slot as u8, nv_image(s, pos))
            } else {
                images
            },
            s,
            nv_image_end(s, pos),
            slot + 1,
            (count - 1) as nat,
        )
    }
}

/// Hexadecimal digit of a number below 16, in upper case.
pub open spec fn hex_digit(n: int) -> char {
    if n < 10 {
        (0x30 + n) as u8 as char
    } else {
        (0x41 + (n - 10)) as u8 as char
    }
}

/// A byte as two hexadecimal digits.
pub open spec fn hex_byte(b: u8) -> Seq<char> {
    seq![hex_digit(b as int / 16), hex_digit(b as int % 16)]
}

/// What the opening byte of a command is called.
pub open spec fn opener_name(b: u8) -> Seq<char> {
    if b == ESC {
        "ESC "@
    } else if b == GS {
        "GS "@
    } else {
        "FS "@
    }
}

/// The log entry of a command: its first two bytes in hexadecimal, and by name.
pub open spec fn log_entry(opener: u8, code: u8) -> LogEntryView {
    LogEntryView {
        hex: hex_byte(opener).push(' ') + hex_byte(code),
        description: opener_name(opener).push(code as char),
    }
}

/// `String::push` adds one character at the end.
pub assume_specification[ String::push ](s: &mut String, c: char)
    ensures
        final(s)@ == old(s)@.push(c),
;

fn push_hex_digit(text: &mut String, n: u8)
    requires
        n < 16,
    ensures
        final(text)@ == old(text)@.push(hex_digit(n as int)),
{
    if n < 10 {
        text.push((0x30 + n) as char);
    } else {
        text.push((0x41 + (n - 10)) as char);
    }
}

fn push_hex_byte(text: &mut String, b: u8)
    ensures
        final(text)@ == old(text)@ + hex_byte(b),
{
    push_hex_digit(text, b / 16);
    push_hex_digit(text, b % 16);
    assert(text@ =~= old(text)@ + hex_byte(b));
}

impl Device {
    /// Adds a command to the log.
    pub fn log_command(&mut self, opener: u8, code: u8)
        ensures
            final(self)@ == (DeviceView {
                log: old(self)@.log.push(log_entry(opener, code)),
                ..old(self)@
            }),
    {
        let ghost before = self@;
        let mut hex = String::new();
        push_hex_byte(&mut hex, opener);
        hex.push(' ');
        push_hex_byte(&mut hex, code);
        let mut description = match opener {
            ESC => "ESC ".to_string(),
            GS => "GS ".to_string(),
            _ => "FS ".to_string(),
        };
        description.push(code as char);
        assert(hex@ =~= log_entry(opener, code).hex);
        self.command_log.push(CommandLogEntry { hex, description });
        assert(self@.log =~= before.log.push(log_entry(opener, code)));
    }

    /// `FS q n [xL xH yL yH d1...dk]...`, with `s` from FS on: defines NV images
    /// from slot 1 on.
    pub fn define_nv_images(&mut self, s: &[u8])
        requires
            s.len() >= 3,
        ensures
            final(self)@ == (DeviceView {
                nv_images: old(self)@.nv_images.union_prefer_right(
                    nv_table(Map::empty(), s@, 3, 1, s@[2] as nat),
                ),
                ..old(self)@
            }),
    {
        let count: u8 = s[2];
        let mut pos: usize = 3;
        let mut slot: u8 = 0;
        let ghost mut defined: Map<u8, NvImageView> = Map::empty();
        proof {
            assert(self@.nv_images.union_prefer_right(defined) =~= self@.nv_images);
        }
        while slot < count && s.len() - pos >= 4
            invariant
                3 <= pos <= s.len(),
                slot <= count,
                count == s@[2],
                self@ == (DeviceView {
                    nv_images: old(self)@.nv_images.union_prefer_right(defined),
                    ..old(self)@
                }),
                nv_table(defined, s@, pos as int, slot + 1, (count - slot) as nat) == nv_table(
                    Map::empty(),
                    s@,
                    3,
                    1,
                    count as nat,
                ),
            decreases count - slot,
        {
            slot += 1;
            let width_bytes: usize = read_le16(s, pos);
            let height: usize = read_le16(s, pos + 2);
            proof {
                lemma_product16(width_bytes as int, height as int);
            }
            let size: usize = width_bytes * height;
            if size > 0 && size <= s.len() - (pos + 4) {
                let image = NvBitImage {
                    width: width_bytes * 8,
                    height,
                    data: copy_range(s, pos + 4, pos + 4 + size),
                };
                proof {
                    assert(image@ == nv_image(s@, pos as int));
                    assert(nv_views(self.nv_images@.insert(slot, image)) =~= nv_views(
                        self.nv_images@,
                    ).insert(slot, image@));
                    assert(self@.nv_images.insert(slot, image@)
                        =~= old(self)@.nv_images.union_prefer_right(
                        defined.insert(slot, image@),
                    ));
                    defined = defined.insert(slot, image@);
                }
                self.nv_images.insert(slot, image);
            }
            pos = nv_image_stop(s, pos);
        }
    }
}

impl Default for Device {
    fn default() -> (r: Self)
        ensures
            r@ == (DeviceView {
                status: default_status(),
                nv_images: Map::empty(),
                log: Seq::empty(),
            }),
    {
        let device = Device {
            printer_status: PrinterStatus::default(),
            nv_images: HashMap::new(),
            command_log: Vec::new(),
        };
        assert(device@.nv_images =~= Map::empty());
        assert(device@.log =~= Seq::empty());
        device
    }
}

} // verus!
