//! Values by their numbers: pages, dots, grays, pictures, places and names.

use vstd::prelude::*;
use vstd::utf8::{encode_utf8, encode_utf8_decode_utf8, encode_utf8_valid_utf8};
use vstd::utf8::{is_ascii_chars, valid_utf8};
use crate::app_state::{
    AppState, AppView, app_machine, connection_line, holds, toggled_cover, toggled_drawer,
    toggled_paper, without_connection,
};
use crate::bitmap::{
    Bitmap, BitmapView, barcode_cells, barcode_picture, fits, picture_cells, rows_above,
    rows_below, scaled, scaled_cells,
};
use crate::codepage::{
    TextEncoding, ascii_chars, decodable_len, encoded_text, line_text, lossy_utf8, oem_char,
    utf8_text,
};
use crate::element::{
    Alignment, Barcode2DVariant, BarcodeType, ElementView, HriPosition, ReceiptElement,
    element_views,
};
use crate::framing::{Extent, Span};
use crate::layout::{
    ImageScale, Shade, area_width, double_symbol_offset, percent_of, pulse_of, scale_of, shade_of,
    shown_width,
};
use crate::model::DumpView;
use crate::paper::PaperSize;
use crate::pbm::{decimal, pbm_bytes, pbm_name};
use crate::raster::{dot, image_gray_at, image_grays, rows_keep_dots, rows_of_columns};
use crate::renderer::{EscPosRenderer, RasterDump, dump_views, machine};
use crate::state::{
    CommandLogEntry, Device, DeviceView, LogEntryView, NvBitImage, NvImageView, PrinterStatus,
    default_status,
};
use crate::symbol::{
    SymbolFault, SymbolFaultView, Symbology, barcode_result, encoding_view, qr_module_size,
    readable, result_view, symbol_result, symbology_2d, symbology_of,
};

verus! {

/// A line in one of the OEM pages has one character for each byte: the lower half
/// stands for itself, the upper half for the characters of the page. The pages are
/// 437, 850, 860, 863, 865, 858, 866 and 852 for 0, 2, 3, 4, 5, 14 or 19, 17 and
/// 18.
pub proof fn oem_lines_go_byte_by_byte(n: u8, encoding: TextEncoding, bytes: Seq<u8>, k: int)
    requires
        n == 0 || 2 <= n <= 5 || n == 14 || 17 <= n <= 19,
        0 <= k < bytes.len(),
    ensures
        ({
            let page = if n == 0 {
                437u16
            } else if n == 2 {
                850
            } else if n == 3 {
                860
            } else if n == 4 {
                863
            } else if n == 5 {
                865
            } else if n == 17 {
                866
            } else if n == 18 {
                852
            } else {
                858
            };
            let text = line_text(n, encoding, bytes);
            &&& text.len() == bytes.len()
            &&& bytes[k] < 0x80 ==> text[k] == bytes[k] as char
            &&& bytes[k] >= 0x80 ==> text[k] == oem_char(page, bytes[k])
        }),
{
}

/// A line in another page is decoded in the selected encoding as a whole. ASCII
/// stands for itself.
pub proof fn other_lines_go_by_encoding(n: u8, encoding: TextEncoding, bytes: Seq<u8>)
    requires
        n == 1 || 6 <= n <= 13 || n == 15 || n == 16 || 20 <= n,
    ensures
        (exists|k: int| 0 <= k < bytes.len() && #[trigger] bytes[k] >= 0x80) ==> line_text(
            n,
            encoding,
            bytes,
        ) == encoded_text(encoding, bytes),
        (forall|k: int| 0 <= k < bytes.len() ==> #[trigger] bytes[k] < 0x80) ==> {
            let text = line_text(n, encoding, bytes);
            &&& text.len() == bytes.len()
            &&& forall|k: int| 0 <= k < bytes.len() ==> #[trigger] text[k] == bytes[k] as char
        },
{
}

/// The UTF-8 bytes of a text give the text back, and other bytes are repaired.
pub proof fn utf8_gives_the_text_back(text: Seq<char>, bytes: Seq<u8>)
    ensures
        utf8_text(encode_utf8(text)) == text,
        !valid_utf8(bytes) ==> utf8_text(bytes) == lossy_utf8(bytes),
{
    encode_utf8_valid_utf8(text);
    encode_utf8_decode_utf8(text);
}

/// Bytes up to a sixteenth of what memory can hold can be decoded.
pub proof fn long_lines_are_decoded(n: nat)
    ensures
        decodable_len(n) == (16 * n <= usize::MAX - usize::MAX % 16),
{
}

/// The dots of a byte from left to right are its bits from 128 down to one.
pub proof fn dots_are_bits(b: u8)
    ensures
        dot(b, 0) == (b >= 128),
        dot(b, 1) == ((b / 64) % 2 == 1),
        dot(b, 2) == ((b / 32) % 2 == 1),
        dot(b, 3) == ((b / 16) % 2 == 1),
        dot(b, 4) == ((b / 8) % 2 == 1),
        dot(b, 5) == ((b / 4) % 2 == 1),
        dot(b, 6) == ((b / 2) % 2 == 1),
        dot(b, 7) == (b % 2 == 1),
{
    assert(((b >> 7) & 1 == 1) == (b >= 128) && ((b >> 6) & 1 == 1) == ((b / 64) % 2 == 1) && ((b
        >> 5) & 1 == 1) == ((b / 32) % 2 == 1) && ((b >> 4) & 1 == 1) == ((b / 16) % 2 == 1) && ((b
        >> 3) & 1 == 1) == ((b / 8) % 2 == 1) && ((b >> 2) & 1 == 1) == ((b / 4) % 2 == 1) && ((b
        >> 1) & 1 == 1) == ((b / 2) % 2 == 1) && ((b >> 0) & 1 == 1) == (b % 2 == 1))
        by (bit_vector);
}

/// Turning columns into rows: a row takes a byte for eight dots begun. The dot in
/// column `x` and row `y` is dot `y % 8` of byte `y / 8` of its column, each column
/// having a byte for eight full dots of the height. What no byte covers is white,
/// and so is what pads a row.
pub proof fn columns_become_rows(data: Seq<u8>, width: int, height: int, x: int, y: int)
    requires
        0 < width,
        0 <= y < height,
        0 <= x < 8 * ((width + 7) / 8),
    ensures
        ({
            let rows = rows_of_columns(data, width, height);
            let row_bytes = (width + 7) / 8;
            let at = x * (height / 8) + y / 8;
            &&& rows.len() == row_bytes * height
            &&& 0 <= y * row_bytes + x / 8 < rows.len()
            &&& dot(rows[y * row_bytes + x / 8], x % 8) == (x < width && y < 8 * (height / 8) && at
                < data.len() && dot(data[at], y % 8))
        }),
{
    let row_bytes = (width + 7) / 8;
    assert(0 <= row_bytes * height) by (nonlinear_arith)
        requires
            0 <= row_bytes,
            0 <= height,
    ;
    assert(0 <= y * row_bytes + x / 8 < row_bytes * height) by (nonlinear_arith)
        requires
            0 <= x / 8 < row_bytes,
            0 <= y < height,
    ;
    rows_keep_dots(data, width, height, x, y);
}

/// The image of `ESC * 32` and `ESC * 33`, dot by dot: 24 rows, each column three
/// bytes from top to bottom. That of the other modes has eight rows, each column
/// one byte.
pub proof fn column_image_rows(data: Seq<u8>, width: int, x: int, y: int)
    requires
        0 <= x < width,
    ensures
        ({
            let row_bytes = (width + 7) / 8;
            let high = rows_of_columns(data, width, 24);
            let low = rows_of_columns(data, width, 8);
            &&& data.len() == 3 * width && 0 <= y < 24 ==> dot(high[y * row_bytes + x / 8], x % 8)
                == dot(data[3 * x + y / 8], y % 8)
            &&& data.len() == width && 0 <= y < 8 ==> dot(low[y * row_bytes + x / 8], x % 8) == dot(
                data[x],
                y,
            )
        }),
{
    if 0 <= y < 24 {
        columns_become_rows(data, width, 24, x, y);
    }
    if 0 <= y < 8 {
        columns_become_rows(data, width, 8, x, y);
    }
}

/// The gray of a dot: white where no ink is, and otherwise 180, 130 and 80 for the
/// densities zero, one and two, and black from three on.
pub proof fn dots_are_gray(
    width: int,
    height: int,
    data: Seq<u8>,
    density: u8,
    row_bytes: int,
    x: int,
    y: int,
)
    requires
        0 <= x < width,
        0 <= y < height,
    ensures
        ({
            let grays = image_grays(width, height, data, density, row_bytes);
            let at = y * row_bytes + x / 8;
            let ink = at < data.len() && dot(data[at], x % 8);
            &&& grays.len() == width * height
            &&& 0 <= y * width + x < grays.len()
            &&& !ink ==> grays[y * width + x] == 255
            &&& ink && density == 0 ==> grays[y * width + x] == 180
            &&& ink && density == 1 ==> grays[y * width + x] == 130
            &&& ink && density == 2 ==> grays[y * width + x] == 80
            &&& ink && density >= 3 ==> grays[y * width + x] == 0
        }),
{
    image_gray_at(width, height, data, density, row_bytes, x, y);
    assert(0 <= width * height) by (nonlinear_arith)
        requires
            0 <= width,
            0 <= height,
    ;
}

/// A picture that is enlarged shows each cell as a square of its colour.
pub proof fn cells_become_squares(b: BitmapView, k: int, x: int, y: int)
    requires
        0 < k,
        0 <= x < k * b.width,
        0 <= y < k * b.height,
    ensures
        ({
            let large = scaled(b, k);
            &&& large.width == k * b.width
            &&& large.height == k * b.height
            &&& large.dark.len() == large.width * large.height
            &&& large.dark[y * large.width + x] == b.dark[(y / k) * b.width + x / k]
        }),
{
    assert(b.width * k == k * b.width) by (nonlinear_arith);
    assert(b.height * k == k * b.height) by (nonlinear_arith);
    scaled_cells(b, k, x, y);
}

/// A barcode shows its bars `k` dots wide in `height` rows, with 14 light rows
/// above them for text above, and 14 below them for text below.
pub proof fn barcodes_leave_room_for_text(
    bars: BitmapView,
    height: int,
    k: int,
    position: HriPosition,
    x: int,
    y: int,
)
    requires
        0 < k,
        0 <= height,
        0 <= x < k * bars.width,
    ensures
        ({
            let shown = barcode_picture(bars, height, k, position);
            let top: int = if position == HriPosition::Above || position == HriPosition::Both {
                14
            } else {
                0
            };
            let bottom: int = if position == HriPosition::Below || position == HriPosition::Both {
                14
            } else {
                0
            };
            &&& shown.width == k * bars.width
            &&& shown.height == top + height + bottom
            &&& 0 <= y < shown.height ==> {
                &&& shown.dark.len() == shown.width * shown.height
                &&& shown.dark[y * shown.width + x] == (top <= y < top + height && bars.dark[x / k])
            }
        }),
{
    assert(bars.width * k == k * bars.width) by (nonlinear_arith);
    if 0 <= y < rows_above(position) + height + rows_below(position) {
        let top = rows_above(position);
        barcode_cells(bars, height, k, position, x, y);
        picture_cells(
            bars.width * k,
            top + height + rows_below(position),
            |i: int, j: int| top <= j < top + height && bars.at(i / k, 0),
            x,
            y,
        );
        assert(0 * bars.width + x / k == x / k);
    }
}

/// Each barcode type, and each two-dimensional variant, is encoded as itself.
pub proof fn types_are_encoded_as_themselves()
    ensures
        symbology_of(BarcodeType::UpcA) == Symbology::UpcA,
        symbology_of(BarcodeType::UpcE) == Symbology::UpcE,
        symbology_of(BarcodeType::Ean13) == Symbology::Ean13,
        symbology_of(BarcodeType::Ean8) == Symbology::Ean8,
        symbology_of(BarcodeType::Code39) == Symbology::Code39,
        symbology_of(BarcodeType::Itf) == Symbology::Itf,
        symbology_of(BarcodeType::Codabar) == Symbology::Codabar,
        symbology_of(BarcodeType::Code93) == Symbology::Code93,
        symbology_of(BarcodeType::Code128) == Symbology::Code128,
        symbology_2d(Barcode2DVariant::Pdf417) == Symbology::Pdf417,
        symbology_2d(Barcode2DVariant::DataMatrix) == Symbology::DataMatrix,
{
}

/// Every text that fits in memory can be handed to an encoder of bars, Codabar
/// apart; to that of PDF417 up to a gigabyte; to that of DataMatrix where it is not
/// Latin-1, or up to 750 characters of ASCII, 3116 digits, or 350 characters that
/// do not begin with a bracket.
pub proof fn texts_for_encoders(symbology: Symbology, text: Seq<char>)
    ensures
        ({
            let bytes = encode_utf8(text).len();
            let room = bytes <= usize::MAX / 32;
            &&& symbology != Symbology::Codabar && symbology != Symbology::Pdf417 && symbology
                != Symbology::DataMatrix ==> readable(symbology, text) == room
            &&& readable(Symbology::Pdf417, text) == (room && bytes <= 0x4000_0000)
            &&& readable(Symbology::DataMatrix, text) == (room && ({
                ||| exists|k: int| 0 <= k < text.len() && #[trigger] text[k] > '\u{ff}'
                ||| text.len() <= 750 && is_ascii_chars(text)
                ||| text.len() <= 3116 && forall|k: int|
                    0 <= k < text.len() ==> '0' <= #[trigger] text[k] <= '9'
                ||| text.len() <= 350 && (text.len() == 0 || text[0] != '[')
            }))
        }),
{
}

/// A picture fits in memory where it has at most an eighth of the places of memory.
pub proof fn pictures_fit(width: int, height: int)
    requires
        0 <= width <= usize::MAX,
        0 <= height <= usize::MAX,
    ensures
        fits(width, height) == (width * height <= usize::MAX / 8),
        !fits(-1, height),
        !fits(width, -1),
{
}

/// QR modules are shown with one to eight dots, as far as the size asks for.
pub proof fn qr_modules_are_one_to_eight_dots(size: int)
    ensures
        1 <= qr_module_size(size) <= 8,
        1 <= size <= 8 ==> qr_module_size(size) == size,
        size < 1 ==> qr_module_size(size) == 1,
        size > 8 ==> qr_module_size(size) == 8,
{
}

/// What an encoder refuses is shown by its reason; what it gives is shown enlarged
/// by the module size, one at least, or found too large.
pub proof fn encoded_symbols_are_shown(
    bits: BitmapView,
    why: Seq<char>,
    size: u8,
    height: u8,
    position: HriPosition,
)
    ensures
        symbol_result(Err(why), size) == Err::<BitmapView, SymbolFaultView>(
            SymbolFaultView::Encoder(why),
        ),
        barcode_result(Err(why), height, size, position) == Err::<BitmapView, SymbolFaultView>(
            SymbolFaultView::Encoder(why),
        ),
        ({
            let k: int = if size == 0 {
                1
            } else {
                size as int
            };
            if (k * bits.width) * (k * bits.height) <= usize::MAX / 8 && 0 <= k * bits.width
                <= usize::MAX && 0 <= k * bits.height <= usize::MAX {
                symbol_result(Ok(bits), size) == Ok::<BitmapView, SymbolFaultView>(scaled(bits, k))
            } else {
                symbol_result(Ok(bits), size) == Err::<BitmapView, SymbolFaultView>(
                    SymbolFaultView::TooLarge,
                )
            }
        }),
        ({
            let shown = barcode_picture(bits, height as int, size as int, position);
            if shown.width * shown.height <= usize::MAX / 8 && 0 <= shown.width <= usize::MAX && 0
                <= shown.height <= usize::MAX {
                barcode_result(Ok(bits), height, size, position) == Ok::<
                    BitmapView,
                    SymbolFaultView,
                >(shown)
            } else {
                barcode_result(Ok(bits), height, size, position) == Err::<
                    BitmapView,
                    SymbolFaultView,
                >(SymbolFaultView::TooLarge)
            }
        }),
{
    let k: int = if size == 0 {
        1
    } else {
        size as int
    };
    assert(bits.width * k == k * bits.width) by (nonlinear_arith);
    assert(bits.height * k == k * bits.height) by (nonlinear_arith);
}

/// Inverted text is white; bold text and text that is struck twice is black; other
/// text gets darker with the density, and is black from three on.
pub proof fn text_is_shaded(bold: bool, double_strike: bool, density: u8)
    ensures
        shade_of(true, bold, double_strike, density) == Shade::White,
        shade_of(false, true, double_strike, density) == Shade::Black,
        shade_of(false, bold, true, density) == Shade::Black,
        density >= 3 ==> shade_of(false, bold, double_strike, density) == Shade::Black,
        shade_of(false, false, false, 0) == Shade::LightGray,
        shade_of(false, false, false, 1) == Shade::Gray,
        shade_of(false, false, false, 2) == Shade::DarkGray,
{
}

/// A symbol with an offset stands that far from the edge. Without one, left is the
/// edge of the paper, the centre is the centre of the paper, and right ends where
/// the print area ends, which is centred too.
pub proof fn symbols_have_their_place(offset: u16, area: u16, paper: int, width: int)
    ensures
        ({
            let effective = if area == 0 {
                paper
            } else {
                area as int
            };
            &&& area_width(area, paper) == effective
            &&& forall|a: Alignment|
                offset > 0 ==> #[trigger] double_symbol_offset(a, offset, area, paper, width) == 2
                    * offset
            &&& double_symbol_offset(Alignment::Left, 0, area, paper, width) == 0
            &&& double_symbol_offset(Alignment::Center, 0, area, paper, width) == paper - width
            &&& double_symbol_offset(Alignment::Right, 0, area, paper, width) == (paper - effective)
                + 2 * effective - 2 * width
        }),
{
}

/// Images of up to 300 by 150 dots are shown three times as large, and larger ones
/// dot for dot; both as wide as the print area where that is less.
pub proof fn images_have_their_size(width: int, height: int, area: int)
    requires
        0 < width,
    ensures
        ({
            let wanted = if width <= 300 && height <= 150 {
                3 * width
            } else {
                width
            };
            &&& shown_width(width, height, area) == (if wanted <= area {
                wanted
            } else {
                area
            })
            &&& scale_of(width, height, area) == ImageScale::FillArea <==> wanted > area
            &&& scale_of(width, height, area) == ImageScale::Three <==> wanted <= area && wanted
                != width
        }),
{
}

/// Font B is three quarters of font A, font C 65 hundredths, and every other font
/// is as large. A pulse lasts twice as many milliseconds as its number.
pub proof fn fonts_and_pulses_have_their_size(font: u8, time: u8)
    ensures
        4 * percent_of(1) == 3 * percent_of(0),
        100 * percent_of(2) == 65 * percent_of(0),
        font != 1 && font != 2 ==> percent_of(font) == 100,
        pulse_of(time) == 2 * time,
{
}

/// The paper of 58 mm has 32 columns and that of 80 mm has 48.
pub proof fn paper_has_columns()
    ensures
        PaperSize::Size58mm.columns() == 32,
        PaperSize::Size80mm.columns() == 48,
{
}

/// A printer that is ready has paper and is online, its cover and its drawer are
/// closed.
pub proof fn printer_starts_ready()
    ensures
        default_status().paper_present,
        default_status().cover_closed,
        !default_status().drawer_open,
        default_status().online,
{
}

/// A text holds another exactly where it is that text with something before and
/// behind it.
pub proof fn held_texts(a: Seq<char>, part: Seq<char>, b: Seq<char>, text: Seq<char>)
    ensures
        holds(a + part + b, part),
        holds(text, part) ==> exists|k: int|
            0 <= k && k + part.len() <= text.len() && #[trigger] (text.take(k) + part + text.skip(
                k + part.len(),
            )) == text,
{
    let all = a + part + b;
    let n = a.len() as int;
    assert(all.subrange(n, n + part.len()) =~= part);
    if holds(text, part) {
        let k = choose|k: int|
            0 <= k <= text.len() - part.len() && #[trigger] text.subrange(k, k + part.len())
                == part;
        assert(text.take(k) + part + text.skip(k + part.len()) =~= text);
    }
}

/// A connection is shown by its address. When it is closed, exactly the lines that
/// hold the address go, and the others stay in their order.
pub proof fn connections_are_shown(lines: Seq<Seq<char>>, addr: Seq<char>, line: Seq<char>)
    ensures
        connection_line(addr) == seq!['C', 'o', 'n', 'n', 'e', 'c', 't', 'e', 'd', ':', ' '] + addr,
        without_connection(Seq::empty(), addr) == Seq::<Seq<char>>::empty(),
        holds(line, addr) ==> without_connection(lines.push(line), addr) == without_connection(
            lines,
            addr,
        ),
        !holds(line, addr) ==> without_connection(lines.push(line), addr) == without_connection(
            lines,
            addr,
        ).push(line),
{
    reveal_strlit("Connected: ");
    assert("Connected: "@ =~= seq!['C', 'o', 'n', 'n', 'e', 'c', 't', 'e', 'd', ':', ' ']);
    reveal(Seq::filter);
    assert(lines.push(line).drop_last() =~= lines);
}

/// Each switch of the window moves its own sensor and nothing else.
pub proof fn switches_move_their_sensor(state: AppView)
    ensures
        toggled_paper(state) == (AppView {
            device: DeviceView {
                status: PrinterStatus {
                    paper_present: !state.device.status.paper_present,
                    ..state.device.status
                },
                ..state.device
            },
            ..state
        }),
        toggled_cover(state) == (AppView {
            device: DeviceView {
                status: PrinterStatus {
                    cover_closed: !state.device.status.cover_closed,
                    ..state.device.status
                },
                ..state.device
            },
            ..state
        }),
        toggled_drawer(state) == (AppView {
            device: DeviceView {
                status: PrinterStatus {
                    drawer_open: !state.device.status.drawer_open,
                    ..state.device.status
                },
                ..state.device
            },
            ..state
        }),
{
}

/// A dump is a binary PBM file: its mark, its width and height in decimal, and the
/// data; and its name tells the width and the height.
pub proof fn dumps_are_pbm_files(d: DumpView)
    requires
        0 <= d.width,
        0 <= d.height,
    ensures
        ({
            let w = decimal(d.width as nat);
            let h = decimal(d.height as nat);
            &&& pbm_bytes(d) == seq![0x50u8, 0x34u8, 0x0Au8] + w + seq![0x20u8] + h + seq![0x0Au8]
                + d.data
            &&& pbm_name(d) == seq!['r', 'a', 's', 't', 'e', 'r', '_'] + ascii_chars(w) + seq![
                'x',
            ] + ascii_chars(h) + seq!['.', 'p', 'b', 'm']
        }),
{
    reveal_strlit("raster_");
    reveal_strlit("x");
    reveal_strlit(".pbm");
    assert("raster_"@ =~= seq!['r', 'a', 's', 't', 'e', 'r', '_']);
    assert("x"@ =~= seq!['x']);
    assert(".pbm"@ =~= seq!['.', 'p', 'b', 'm']);
}

/// Decimal digits: one digit below ten, and one more for each factor of ten.
pub proof fn decimals_grow_by_digits(n: nat, d: nat)
    requires
        d < 10,
    ensures
        decimal(d) == seq![(48 + d) as u8],
        n > 0 ==> decimal(10 * n + d) == decimal(n).push((48 + d) as u8),
{
}

/// Bytes become the characters of the same numbers, one by one.
pub proof fn ascii_bytes_are_characters(bytes: Seq<u8>, k: int)
    requires
        0 <= k < bytes.len(),
    ensures
        ascii_chars(bytes).len() == bytes.len(),
        ascii_chars(bytes)[k] == bytes[k] as char,
{
}

/// An element is seen with every field under its own name.
pub proof fn elements_show_their_fields(e: ReceiptElement)
    ensures
        match e {
            ReceiptElement::Text {
                content,
                bold,
                underline,
                double_width,
                double_height,
                inverted,
                alignment,
                density,
                offset,
                left_margin,
                character_spacing,
                double_strike,
                font,
                print_area_width,
            } => e@ == (ElementView::Text {
                content: content@,
                bold,
                underline,
                double_width,
                double_height,
                inverted,
                alignment,
                density,
                offset,
                left_margin,
                character_spacing,
                double_strike,
                font,
                print_area_width,
            }),
            ReceiptElement::RasterImage {
                width,
                height,
                data,
                offset,
                density,
                alignment,
                bytes_per_line,
                print_area_width,
            } => e@ == (ElementView::RasterImage {
                width: width as int,
                height: height as int,
                data: data@,
                offset,
                density,
                alignment,
                bytes_per_line: bytes_per_line as int,
                print_area_width,
            }),
            ReceiptElement::QrCode { data, size, alignment, offset, print_area_width } => e@ == (
            ElementView::QrCode {
                data: data@,
                size: size as int,
                alignment,
                offset,
                print_area_width,
            }),
            ReceiptElement::Barcode {
                data,
                barcode_type,
                height,
                module_width,
                hri_position,
                alignment,
                offset,
                print_area_width,
            } => e@ == (ElementView::Barcode {
                data: data@,
                barcode_type,
                height,
                module_width,
                hri_position,
                alignment,
                offset,
                print_area_width,
            }),
            ReceiptElement::Barcode2D {
                data,
                variant,
                module_size,
                alignment,
                offset,
                print_area_width,
            } => e@ == (ElementView::Barcode2D {
                data: data@,
                variant,
                module_size,
                alignment,
                offset,
                print_area_width,
            }),
            ReceiptElement::PaperCut { cut_type } => e@ == (ElementView::PaperCut {
                cut_type: cut_type@,
            }),
            ReceiptElement::CashDrawer { pin, on_time, off_time } => e@ == (
            ElementView::CashDrawer { pin, on_time, off_time }),
            ReceiptElement::Separator => e@ == ElementView::Separator,
            ReceiptElement::FormFeed => e@ == ElementView::FormFeed,
        },
{
}

/// The other values are seen with every field under its own name too.
pub proof fn values_show_their_fields(
    image: NvBitImage,
    entry: CommandLogEntry,
    device: Device,
    bitmap: Bitmap,
    dump: RasterDump,
    state: AppState,
    slot: u8,
    k: int,
)
    ensures
        image@ == (NvImageView {
            width: image.width as int,
            height: image.height as int,
            data: image.data@,
        }),
        entry@ == (LogEntryView { hex: entry.hex@, description: entry.description@ }),
        device@.status == device.printer_status,
        device@.nv_images.contains_key(slot) == device.nv_images@.contains_key(slot),
        device.nv_images@.contains_key(slot) ==> device@.nv_images[slot]
            == device.nv_images@[slot]@,
        device@.log.len() == device.command_log@.len(),
        0 <= k < device.command_log@.len() ==> device@.log[k] == device.command_log@[k]@,
        bitmap@ == (BitmapView {
            width: bitmap.width as int,
            height: bitmap.height as int,
            dark: bitmap.dark@,
        }),
        dump@ == (DumpView {
            width: dump.width as int,
            height: dump.height as int,
            data: dump.data@,
        }),
        state@.elements.len() == state.elements@.len(),
        0 <= k < state.elements@.len() ==> state@.elements[k] == state.elements@[k]@,
        state@.connections.len() == state.connections@.len(),
        0 <= k < state.connections@.len() ==> state@.connections[k] == state.connections@[k]@,
        state@.paper_size == state.paper_size,
        state@.device == state.device@,
        state@.port == state.port,
{
}

/// Lists of elements and of dumps are seen item by item.
pub proof fn lists_show_their_items(
    elements: Seq<ReceiptElement>,
    dumps: Seq<RasterDump>,
    k: int,
)
    ensures
        element_views(elements).len() == elements.len(),
        0 <= k < elements.len() ==> element_views(elements)[k] == elements[k]@,
        dump_views(dumps).len() == dumps.len(),
        0 <= k < dumps.len() ==> dump_views(dumps)[k] == dumps[k]@,
{
}

/// The printer that commands work on is the renderer and the device as they are.
pub proof fn printers_are_seen_as_they_are(r: EscPosRenderer, d: Device, state: AppState)
    ensures
        machine(r, d).renderer == r@,
        machine(r, d).device == d@,
        app_machine(state, r) == machine(r, state.device),
{
}

/// What an encoder gives, and what is shown, is seen as it is.
pub proof fn results_are_seen_as_they_are(
    shown: Result<Bitmap, SymbolFault>,
    encoded: Result<Bitmap, String>,
)
    ensures
        match shown {
            Ok(b) => result_view(shown) == Ok::<BitmapView, SymbolFaultView>(b@),
            Err(why) => result_view(shown) == Err::<BitmapView, SymbolFaultView>(why@),
        },
        match encoded {
            Ok(b) => encoding_view(encoded) == Ok::<BitmapView, Seq<char>>(b@),
            Err(why) => encoding_view(encoded) == Err::<BitmapView, Seq<char>>(why@),
        },
{
}

/// How far a command reaches, and what a symbol fault tells, is seen as it is.
pub proof fn answers_are_seen_as_they_are(e: Extent, f: SymbolFault)
    ensures
        match e {
            Extent::Ends(n) => e@ == Span::Ends(n as int),
            Extent::Incomplete => e@ == Span::Incomplete,
            Extent::Overrun => e@ == Span::Overrun,
        },
        match f {
            SymbolFault::Encoder(why) => f@ == SymbolFaultView::Encoder(why@),
            SymbolFault::TooLarge => f@ == SymbolFaultView::TooLarge,
        },
{
}

} // verus!
