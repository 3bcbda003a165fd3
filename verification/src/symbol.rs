//! Barcodes and two-dimensional symbols: from data to pictures.

use vstd::prelude::*;
use vstd::string::StrSliceExecFns;
use vstd::utf8::{
    encode_utf8, encode_utf8_valid_utf8, is_ascii_chars, is_ascii_chars_encode_utf8,
    is_char_boundary, is_char_boundary_iff_not_is_continuation_byte,
    is_char_boundary_start_end_of_seq,
};
use qrcode::types::QrError;
use rxing::{BarcodeFormat, Writer};
use crate::bitmap::{Bitmap, BitmapView, barcode_picture, fits, scaled};
use crate::codepage::{decodable_len, decode_utf8_lossy, utf8_text};
use crate::element::{Barcode2DVariant, BarcodeType, HriPosition};

verus! {

/// What a symbol can be encoded as, QR codes apart.
#[derive(Debug, Clone, Copy, PartialEq, Eq, Structural)]
pub enum Symbology {
    UpcA,
    UpcE,
    Ean13,
    Ean8,
    Code39,
    Itf,
    Codabar,
    Code93,
    Code128,
    Pdf417,
    DataMatrix,
}

/// Why a QR code cannot be made.
#[derive(Debug, Clone, Copy, PartialEq, Eq, Structural)]
pub enum QrFault {
    DataTooLong,
    InvalidVersion,
    UnsupportedCharacterSet,
    InvalidEciDesignator,
    InvalidCharacter,
}

/// Why another symbol cannot be shown.
#[derive(Debug)]
pub enum SymbolFault {
    /// The data cannot be encoded; the text says why.
    Encoder(String),
    /// The picture would not fit in memory.
    TooLarge,
}

/// Why a symbol cannot be shown, the text as a sequence.
#[verifier::ext_equal]
pub enum SymbolFaultView {
    Encoder(Seq<char>),
    TooLarge,
}

impl View for SymbolFault {
    type V = SymbolFaultView;

    open spec fn view(&self) -> SymbolFaultView {
        match *self {
            SymbolFault::Encoder(why) => SymbolFaultView::Encoder(why@),
            SymbolFault::TooLarge => SymbolFaultView::TooLarge,
        }
    }
}

/// The symbology of a barcode type.
pub open spec fn symbology_of(barcode_type: BarcodeType) -> Symbology {
    match barcode_type {
        BarcodeType::UpcA => Symbology::UpcA,
        BarcodeType::UpcE => Symbology::UpcE,
        BarcodeType::Ean13 => Symbology::Ean13,
        BarcodeType::Ean8 => Symbology::Ean8,
        BarcodeType::Code39 => Symbology::Code39,
        BarcodeType::Itf => Symbology::Itf,
        BarcodeType::Codabar => Symbology::Codabar,
        BarcodeType::Code93 => Symbology::Code93,
        BarcodeType::Code128 => Symbology::Code128,
    }
}

/// The first family of characters that may guard a Codabar text.
pub open spec fn codabar_guard(c: char) -> bool {
    c == 'A' || c == 'B' || c == 'C' || c == 'D' || c == 'a' || c == 'b' || c == 'c' || c == 'd'
}

/// The second family of characters that may guard a Codabar text.
pub open spec fn codabar_alternate_guard(c: char) -> bool {
    c == 'T' || c == 'N' || c == '*' || c == 'E' || c == 't' || c == 'n' || c == 'e'
}

/// A byte position in the UTF-8 form of a text is between two characters.
pub open spec fn between_chars(text: Seq<char>, k: int) -> bool {
    is_char_boundary(encode_utf8(text), k)
}

/// The Codabar encoder can take a text apart. It counts characters and cuts at
/// bytes: a text with guards just before its last character, a text without
/// guards at its end. Where the cut is inside a character, it does not return.
pub open spec fn codabar_readable(text: Seq<char>) -> bool {
    let n = text.len() as int;
    if n < 2 {
        between_chars(text, n)
    } else if codabar_guard(text[0]) {
        codabar_guard(text[n - 1]) ==> between_chars(text, n - 1)
    } else if codabar_alternate_guard(text[0]) {
        codabar_alternate_guard(text[n - 1]) ==> between_chars(text, n - 1)
    } else {
        codabar_guard(text[n - 1]) || codabar_alternate_guard(text[n - 1]) || between_chars(text, n)
    }
}

/// The encoders have room in memory for what they make of a text: less than 32
/// places for each byte of it.
pub open spec fn addressable(text: Seq<char>) -> bool {
    encode_utf8(text).len() <= usize::MAX / 32
}

/// Most bytes of a text for the PDF417 encoder. It counts codewords in 32 bits,
/// and makes at most two of a byte.
pub const MAX_PDF417_TEXT: usize = 0x4000_0000;

/// Most characters of an ASCII text for the DataMatrix encoder. It makes at most
/// two codewords of such a character, and must not get beyond 1558.
pub const MAX_DATAMATRIX_ASCII: usize = 750;

/// Most characters of a Latin-1 text for the DataMatrix encoder. It makes at most
/// four codewords of such a character.
pub const MAX_DATAMATRIX_LATIN1: usize = 350;

/// Most digits for the DataMatrix encoder. It makes one codeword of two digits.
pub const MAX_DATAMATRIX_DIGITS: usize = 3116;

/// All characters are in Latin-1.
pub open spec fn is_latin1(text: Seq<char>) -> bool {
    forall|k: int| 0 <= k < text.len() ==> #[trigger] text[k] <= '\u{ff}'
}

/// All characters are decimal digits.
pub open spec fn is_digits(text: Seq<char>) -> bool {
    forall|k: int| 0 <= k < text.len() ==> '0' <= #[trigger] text[k] <= '9'
}

/// The DataMatrix encoder is known to take a text apart. It refuses texts that
/// are not Latin-1 before it reads them. A text that starts with `[` may be taken
/// for a macro, of which the end is not encoded.
pub open spec fn datamatrix_readable(text: Seq<char>) -> bool {
    ||| !is_latin1(text)
    ||| is_ascii_chars(text) && text.len() <= MAX_DATAMATRIX_ASCII
    ||| is_digits(text) && text.len() <= MAX_DATAMATRIX_DIGITS
    ||| text.len() <= MAX_DATAMATRIX_LATIN1 && (text.len() > 0 ==> text[0] != '[')
}

/// The encoder of a symbology can take a text apart.
pub open spec fn readable(symbology: Symbology, text: Seq<char>) -> bool {
    &&& addressable(text)
    &&& symbology == Symbology::Codabar ==> codabar_readable(text)
    &&& symbology == Symbology::Pdf417 ==> encode_utf8(text).len() <= MAX_PDF417_TEXT
    &&& symbology == Symbology::DataMatrix ==> datamatrix_readable(text)
}

/// The symbologies of one row of bars.
pub open spec fn is_linear(symbology: Symbology) -> bool {
    symbology != Symbology::Pdf417 && symbology != Symbology::DataMatrix
}

/// The symbology of a two-dimensional symbol.
pub open spec fn symbology_2d(variant: Barcode2DVariant) -> Symbology {
    match variant {
        Barcode2DVariant::Pdf417 => Symbology::Pdf417,
        Barcode2DVariant::DataMatrix => Symbology::DataMatrix,
    }
}

/// The symbol that a text is encoded as, or why it cannot be.
pub uninterp spec fn encoded_symbol(symbology: Symbology, text: Seq<char>) -> Result<
    BitmapView,
    Seq<char>,
>;

/// The QR code of a text, or why there is none.
pub uninterp spec fn qr_symbol(text: Seq<char>) -> Result<BitmapView, QrFault>;

/// `rxing`'s `MultiFormatWriter::encode` with no size asked for: what it gives,
/// the message of its error too, is a function of the symbology and the text. A
/// symbol has at least one cell, and a barcode has one row. An empty text is
/// refused. On a text that `readable` leaves out the encoder may panic; whether
/// it does on a long DataMatrix text is left unsaid.
#[verifier::external_body]
fn encode_symbol(symbology: Symbology, text: &str) -> (r: Result<Bitmap, String>)
    requires
        readable(symbology, text@),
    ensures
        match r {
            Ok(bits) => encoded_symbol(symbology, text@) == Ok::<BitmapView, Seq<char>>(bits@),
            Err(why) => encoded_symbol(symbology, text@) == Err::<BitmapView, Seq<char>>(why@),
        },
        r matches Ok(bits) ==> bits@.wf() && bits.width >= 1 && bits.height >= 1 && (is_linear(
            symbology,
        ) ==> bits.height == 1),
        text@.len() == 0 ==> r is Err,
{
    let format = match symbology {
        Symbology::UpcA => BarcodeFormat::UPC_A, Symbology::UpcE => BarcodeFormat::UPC_E,
        Symbology::Ean13 => BarcodeFormat::EAN_13, Symbology::Ean8 => BarcodeFormat::EAN_8,
        Symbology::Code39 => BarcodeFormat::CODE_39, Symbology::Itf => BarcodeFormat::ITF,
        Symbology::Codabar => BarcodeFormat::CODABAR, Symbology::Code93 => BarcodeFormat::CODE_93,
        Symbology::Code128 => BarcodeFormat::CODE_128, Symbology::Pdf417 => BarcodeFormat::PDF_417,
        Symbology::DataMatrix => BarcodeFormat::DATA_MATRIX,
    };
    match rxing::MultiFormatWriter.encode(text, &format, 0, 0) {
        Ok(m) => Ok(
            Bitmap { width: m.width() as usize, height: m.height() as usize, dark: (&m).into() },
        ),
        Err(e) => Err(e.to_string()),
    }
}

/// `qrcode`'s `QrCode::new`: what it gives is a function of the text. A QR code
/// is a square of 21 to 177 modules, four more from each version to the next.
#[verifier::external_body]
fn encode_qr(text: &str) -> (r: Result<Bitmap, QrFault>)
    requires
        addressable(text@),
    ensures
        match r {
            Ok(bits) => qr_symbol(text@) == Ok::<BitmapView, QrFault>(bits@),
            Err(why) => qr_symbol(text@) == Err::<BitmapView, QrFault>(why),
        },
        r matches Ok(bits) ==> bits@.wf() && bits.width == bits.height && 21 <= bits.width <= 177
            && (bits.width - 17) % 4 == 0,
{
    match qrcode::QrCode::new(text.as_bytes()) {
        Ok(code) => {
            let width: usize = code.width();
            let dark = code.into_colors().into_iter().map(|c| c.select(true, false)).collect();
            Ok(Bitmap { width, height: width, dark })
        },
        Err(QrError::DataTooLong) => Err(QrFault::DataTooLong),
        Err(QrError::InvalidVersion) => Err(QrFault::InvalidVersion),
        Err(QrError::UnsupportedCharacterSet) => Err(QrFault::UnsupportedCharacterSet),
        Err(QrError::InvalidEciDesignator) => Err(QrFault::InvalidEciDesignator),
        Err(QrError::InvalidCharacter) => Err(QrFault::InvalidCharacter),
    }
}

impl BarcodeType {
    /// The symbology of this barcode type.
    pub fn symbology(&self) -> (r: Symbology)
        ensures
            r == symbology_of(*self),
    {
        match self {
            BarcodeType::UpcA => Symbology::UpcA,
            BarcodeType::UpcE => Symbology::UpcE,
            BarcodeType::Ean13 => Symbology::Ean13,
            BarcodeType::Ean8 => Symbology::Ean8,
            BarcodeType::Code39 => Symbology::Code39,
            BarcodeType::Itf => Symbology::Itf,
            BarcodeType::Codabar => Symbology::Codabar,
            BarcodeType::Code93 => Symbology::Code93,
            BarcodeType::Code128 => Symbology::Code128,
        }
    }
}

fn is_codabar_guard(c: char) -> (r: bool)
    ensures
        r == codabar_guard(c),
{
    c == 'A' || c == 'B' || c == 'C' || c == 'D' || c == 'a' || c == 'b' || c == 'c' || c == 'd'
}

fn is_codabar_alternate_guard(c: char) -> (r: bool)
    ensures
        r == codabar_alternate_guard(c),
{
    c == 'T' || c == 'N' || c == '*' || c == 'E' || c == 't' || c == 'n' || c == 'e'
}

fn is_codabar_readable(text: &str) -> (r: bool)
    ensures
        r == codabar_readable(text@),
{
    let n: usize = text.unicode_len();
    if n < 2 {
        return text.is_char_boundary(n);
    }
    let first: char = text.get_char(0);
    let last: char = text.get_char(n - 1);
    if is_codabar_guard(first) {
        !is_codabar_guard(last) || text.is_char_boundary(n - 1)
    } else if is_codabar_alternate_guard(first) {
        !is_codabar_alternate_guard(last) || text.is_char_boundary(n - 1)
    } else {
        is_codabar_guard(last) || is_codabar_alternate_guard(last) || text.is_char_boundary(n)
    }
}

fn is_datamatrix_readable(text: &str) -> (r: bool)
    ensures
        r == datamatrix_readable(text@),
{
    let mut latin1: bool = true;
    let mut digits: bool = true;
    for c in it: text.chars()
        invariant
            it.seq() == text@,
            latin1 == is_latin1(text@.take(it.index() as int)),
            digits == is_digits(text@.take(it.index() as int)),
    {
        proof {
            lemma_next_char(text@, it.index() as int);
        }
        latin1 = latin1 && c <= '\u{ff}';
        digits = digits && '0' <= c && c <= '9';
    }
    assert(text@.take(text@.len() as int) =~= text@);
    let n: usize = text.unicode_len();
    if !latin1 || (text.is_ascii() && n <= MAX_DATAMATRIX_ASCII) || (digits && n <= MAX_DATAMATRIX_DIGITS) {
        return true;
    }
    n <= MAX_DATAMATRIX_LATIN1 && (n == 0 || text.get_char(0) != '[')
}

proof fn lemma_next_char(text: Seq<char>, k: int)
    requires
        0 <= k < text.len(),
    ensures
        is_latin1(text.take(k + 1)) == (is_latin1(text.take(k)) && text[k] <= '\u{ff}'),
        is_digits(text.take(k + 1)) == (is_digits(text.take(k)) && '0' <= text[k] <= '9'),
{
    let a = text.take(k);
    let b = text.take(k + 1);
    assert(b[k] == text[k]);
    assert forall|j: int| 0 <= j < k implies #[trigger] a[j] == b[j] by {}
}

/// Whether the encoder of a symbology can take a text apart.
pub fn is_readable(symbology: Symbology, text: &str) -> (r: bool)
    ensures
        r == readable(symbology, text@),
{
    let bytes: usize = text.as_bytes().len();
    if bytes > usize::MAX / 32 {
        return false;
    }
    match symbology {
        Symbology::Codabar => is_codabar_readable(text),
        Symbology::Pdf417 => bytes <= MAX_PDF417_TEXT,
        Symbology::DataMatrix => is_datamatrix_readable(text),
        _ => true,
    }
}

/// The modules of a QR code that is shown with the given size.
pub open spec fn qr_module_size(size: int) -> int {
    if size < 1 {
        1
    } else if size > 8 {
        8
    } else {
        size
    }
}

/// The picture of a QR code: each module a square of one to eight dots.
pub fn qr_picture(code: &Bitmap, size: usize) -> (r: Bitmap)
    requires
        code@.wf(),
        code.width <= 177,
        code.height <= 177,
    ensures
        r@ == scaled(code@, qr_module_size(size as int)),
        r@.wf(),
{
    let module_size: usize = if size < 1 {
        1
    } else if size > 8 {
        8
    } else {
        size
    };
    proof {
        assert(code.width * module_size <= 1416) by (nonlinear_arith)
            requires
                code.width <= 177,
                module_size <= 8,
        ;
        assert(code.height * module_size <= 1416) by (nonlinear_arith)
            requires
                code.height <= 177,
                module_size <= 8,
        ;
        assert((code.width * module_size) * (code.height * module_size) <= 1416 * 1416)
            by (nonlinear_arith)
            requires
                0 <= code.width * module_size <= 1416,
                0 <= code.height * module_size <= 1416,
        ;
    }
    code.scale(module_size)
}

/// The picture of the QR code of a text, or why there is none.
pub fn render_qr_code(text: &str, size: usize) -> (r: Result<Bitmap, QrFault>)
    ensures
        addressable(text@) ==> match qr_symbol(text@) {
            Ok(code) => r matches Ok(b) && b@ == scaled(code, qr_module_size(size as int))
                && b@.wf(),
            Err(why) => r == Err::<Bitmap, QrFault>(why),
        },
        !addressable(text@) ==> r == Err::<Bitmap, QrFault>(QrFault::DataTooLong),
{
    if text.as_bytes().len() > usize::MAX / 32 {
        return Err(QrFault::DataTooLong);
    }
    match encode_qr(text) {
        Ok(code) => Ok(qr_picture(&code, size)),
        Err(why) => Err(why),
    }
}

/// What is shown of a two-dimensional symbol: each module a square of
/// `module_size` dots, one at least.
pub open spec fn symbol_result(
    encoded: Result<BitmapView, Seq<char>>,
    module_size: u8,
) -> Result<BitmapView, SymbolFaultView> {
    let scale: int = if module_size < 1 {
        1
    } else {
        module_size as int
    };
    match encoded {
        Ok(bits) => if fits(bits.width * scale, bits.height * scale) {
            Ok(scaled(bits, scale))
        } else {
            Err(SymbolFaultView::TooLarge)
        },
        Err(why) => Err(SymbolFaultView::Encoder(why)),
    }
}

/// What is shown of a barcode.
pub open spec fn barcode_result(
    encoded: Result<BitmapView, Seq<char>>,
    height: u8,
    module_width: u8,
    position: HriPosition,
) -> Result<BitmapView, SymbolFaultView> {
    match encoded {
        Ok(bits) => {
            let goal = barcode_picture(bits, height as int, module_width as int, position);
            if fits(goal.width, goal.height) {
                Ok(goal)
            } else {
                Err(SymbolFaultView::TooLarge)
            }
        },
        Err(why) => Err(SymbolFaultView::Encoder(why)),
    }
}

/// A result with its contents as mathematical values.
pub open spec fn result_view(r: Result<Bitmap, SymbolFault>) -> Result<
    BitmapView,
    SymbolFaultView,
> {
    match r {
        Ok(b) => Ok(b@),
        Err(why) => Err(why@),
    }
}

/// What an encoder gave, with its contents as mathematical values.
pub open spec fn encoding_view(r: Result<Bitmap, String>) -> Result<BitmapView, Seq<char>> {
    match r {
        Ok(b) => Ok(b@),
        Err(why) => Err(why@),
    }
}

/// The picture of a two-dimensional symbol, from what the encoder gave.
pub fn symbol_picture(encoded: Result<Bitmap, String>, module_size: u8) -> (r: Result<
    Bitmap,
    SymbolFault,
>)
    requires
        encoded matches Ok(bits) ==> bits@.wf(),
    ensures
        result_view(r) == symbol_result(encoding_view(encoded), module_size),
{
    let scale: usize = if module_size < 1 {
        1
    } else {
        module_size as usize
    };
    match encoded {
        Ok(bits) => match bits.try_scale(scale) {
            Some(b) => Ok(b),
            None => Err(SymbolFault::TooLarge),
        },
        Err(why) => Err(SymbolFault::Encoder(why)),
    }
}

/// The picture of a barcode, from what the encoder gave.
pub fn barcode_from(
    encoded: Result<Bitmap, String>,
    height: u8,
    module_width: u8,
    position: HriPosition,
) -> (r: Result<Bitmap, SymbolFault>)
    requires
        encoded matches Ok(bits) ==> bits@.wf() && bits.height >= 1,
    ensures
        result_view(r) == barcode_result(encoding_view(encoded), height, module_width, position),
{
    match encoded {
        Ok(bits) => match bits.barcode(height, module_width, position) {
            Some(b) => Ok(b),
            None => Err(SymbolFault::TooLarge),
        },
        Err(why) => Err(SymbolFault::Encoder(why)),
    }
}

/// The picture of the barcode of a text that the encoder can take apart.
pub fn text_barcode(
    text: &str,
    barcode_type: BarcodeType,
    height: u8,
    module_width: u8,
    position: HriPosition,
) -> (r: Result<Bitmap, SymbolFault>)
    requires
        readable(symbology_of(barcode_type), text@),
    ensures
        result_view(r) == barcode_result(
            encoded_symbol(symbology_of(barcode_type), text@),
            height,
            module_width,
            position,
        ),
{
    barcode_from(encode_symbol(barcode_type.symbology(), text), height, module_width, position)
}

/// The picture of the barcode of data, read as UTF-8. `None` where the encoder
/// cannot take the text apart.
pub fn render_barcode(
    data: &[u8],
    barcode_type: BarcodeType,
    height: u8,
    module_width: u8,
    position: HriPosition,
) -> (r: Option<Result<Bitmap, SymbolFault>>)
    requires
        decodable_len(data@.len()),
    ensures
        match r {
            Some(result) => {
                &&& readable(symbology_of(barcode_type), utf8_text(data@))
                &&& result_view(result) == barcode_result(
                    encoded_symbol(symbology_of(barcode_type), utf8_text(data@)),
                    height,
                    module_width,
                    position,
                )
            },
            None => !readable(symbology_of(barcode_type), utf8_text(data@)),
        },
{
    let text = decode_utf8_lossy(data);
    if is_readable(barcode_type.symbology(), text.as_str()) {
        Some(text_barcode(text.as_str(), barcode_type, height, module_width, position))
    } else {
        None
    }
}

impl Barcode2DVariant {
    /// The symbology of this variant.
    pub fn symbology(&self) -> (r: Symbology)
        ensures
            r == symbology_2d(*self),
    {
        match self {
            Barcode2DVariant::Pdf417 => Symbology::Pdf417,
            Barcode2DVariant::DataMatrix => Symbology::DataMatrix,
        }
    }
}

/// The picture of the two-dimensional symbol of a text that the encoder can take
/// apart.
pub fn text_barcode_2d(text: &str, variant: Barcode2DVariant, module_size: u8) -> (r: Result<
    Bitmap,
    SymbolFault,
>)
    requires
        readable(symbology_2d(variant), text@),
    ensures
        result_view(r) == symbol_result(
            encoded_symbol(symbology_2d(variant), text@),
            module_size,
        ),
{
    symbol_picture(encode_symbol(variant.symbology(), text), module_size)
}

/// The picture of the two-dimensional symbol of data, read as UTF-8. `None` where
/// it is not known that the encoder can take the text apart.
pub fn render_barcode_2d(data: &[u8], variant: Barcode2DVariant, module_size: u8) -> (r: Option<
    Result<Bitmap, SymbolFault>,
>)
    requires
        decodable_len(data@.len()),
    ensures
        match r {
            Some(result) => {
                &&& readable(symbology_2d(variant), utf8_text(data@))
                &&& result_view(result) == symbol_result(
                    encoded_symbol(symbology_2d(variant), utf8_text(data@)),
                    module_size,
                )
            },
            None => !readable(symbology_2d(variant), utf8_text(data@)),
        },
{
    let text = decode_utf8_lossy(data);
    if is_readable(variant.symbology(), text.as_str()) {
        Some(text_barcode_2d(text.as_str(), variant, module_size))
    } else {
        None
    }
}

/// Every ASCII text that is not too long can be taken apart, whatever the
/// symbology.
pub proof fn ascii_is_readable(symbology: Symbology, text: Seq<char>)
    requires
        is_ascii_chars(text),
        text.len() <= usize::MAX / 32,
        symbology == Symbology::Pdf417 ==> text.len() <= MAX_PDF417_TEXT,
        symbology == Symbology::DataMatrix ==> text.len() <= MAX_DATAMATRIX_ASCII,
    ensures
        readable(symbology, text),
{
    let bytes = encode_utf8(text);
    let n = text.len() as int;
    is_ascii_chars_encode_utf8(text);
    encode_utf8_valid_utf8(text);
    is_char_boundary_start_end_of_seq(bytes);
    if n >= 2 {
        let c = text[n - 1];
        assert('\0' <= c <= '\u{7f}');
        assert(bytes[n - 1] == c as u8);
        assert(bytes[n - 1] < 0x80);
        is_char_boundary_iff_not_is_continuation_byte(bytes, n - 1);
    }
}

} // verus!
