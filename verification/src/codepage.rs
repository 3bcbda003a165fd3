//! Text encodings: from the bytes of a line to its characters.

use vstd::prelude::*;
use vstd::utf8::{decode_utf8, valid_utf8};
use oem_cp::code_table::DECODING_TABLE_CP_MAP;

verus! {

/// Encodings of the lines whose code page is not an OEM page.
#[derive(Debug, Clone, Copy, PartialEq, Eq, Structural)]
pub enum TextEncoding {
    Utf8,
    Windows1252,
    ShiftJis,
}

/// The Windows number of the OEM page that `ESC t n` selects, if it is one.
pub open spec fn windows_code_page(escpos_cp: u8) -> Option<u16> {
    match escpos_cp {
        0 => Some(437),
        2 => Some(850),
        3 => Some(860),
        4 => Some(863),
        5 => Some(865),
        14 | 19 => Some(858),
        17 => Some(866),
        18 => Some(852),
        _ => None,
    }
}

/// The encoding that `ESC t n` selects for pages that are not OEM pages.
pub open spec fn selected_encoding(escpos_cp: u8) -> TextEncoding {
    if escpos_cp == 20 || escpos_cp == 21 || escpos_cp == 255 {
        TextEncoding::ShiftJis
    } else {
        TextEncoding::Windows1252
    }
}

/// The OEM pages that have a decoding table.
pub open spec fn has_oem_table(cp: u16) -> bool {
    ||| cp == 437
    ||| cp == 720
    ||| cp == 737
    ||| cp == 775
    ||| cp == 850
    ||| cp == 852
    ||| cp == 855
    ||| cp == 857
    ||| cp == 858
    ||| 860 <= cp <= 866
    ||| cp == 869
    ||| cp == 874
}

/// The character of a byte of the upper half of an OEM page.
pub uninterp spec fn oem_char(cp: u16, byte: u8) -> char;

/// What bytes hold in an encoding that is not an OEM page.
pub uninterp spec fn encoded_text(encoding: TextEncoding, bytes: Seq<u8>) -> Seq<char>;

/// What bytes hold as UTF-8, ill-formed parts replaced.
pub uninterp spec fn lossy_utf8(bytes: Seq<u8>) -> Seq<char>;

pub open spec fn all_ascii(bytes: Seq<u8>) -> bool {
    forall|k: int| 0 <= k < bytes.len() ==> #[trigger] bytes[k] < 0x80
}

/// Bytes as the characters of the same numbers.
pub open spec fn ascii_chars(bytes: Seq<u8>) -> Seq<char> {
    Seq::new(bytes.len(), |k: int| bytes[k] as char)
}

/// The text of a line in an OEM page: one character for each byte.
pub open spec fn oem_text(cp: u16, bytes: Seq<u8>) -> Seq<char> {
    Seq::new(
        bytes.len(),
        |k: int|
            if bytes[k] < 0x80 {
                bytes[k] as char
            } else {
                oem_char(cp, bytes[k])
            },
    )
}

/// The text of a line.
pub open spec fn line_text(code_page: u8, encoding: TextEncoding, bytes: Seq<u8>) -> Seq<char> {
    match windows_code_page(code_page) {
        Some(cp) => oem_text(cp, bytes),
        None => if all_ascii(bytes) {
            ascii_chars(bytes)
        } else {
            encoded_text(encoding, bytes)
        },
    }
}

/// The text of bytes that are meant to be UTF-8.
pub open spec fn utf8_text(bytes: Seq<u8>) -> Seq<char> {
    if valid_utf8(bytes) {
        decode_utf8(bytes)
    } else {
        lossy_utf8(bytes)
    }
}

/// Bytes that can be decoded with room to spare for the text in memory.
pub open spec fn decodable_len(n: nat) -> bool {
    n <= usize::MAX / 16
}

/// `oem_cp`'s `DECODING_TABLE_CP_MAP` and `TableType::decode_string_lossy`:
/// there is a table for exactly the pages of `has_oem_table`, and decoding by
/// it gives one character for each byte. Bytes below 0x80 stand for
/// themselves; the others go through the table, which `oem_char` names.
#[verifier::external_body]
fn decode_oem(cp: u16, bytes: &[u8]) -> (r: Option<String>)
    requires
        decodable_len(bytes@.len()),
    ensures
        r is Some <==> has_oem_table(cp),
        r matches Some(text) ==> text@ == Seq::new(
            bytes@.len(),
            |k: int|
                if bytes@[k] < 0x80 {
                    bytes@[k] as char
                } else {
                    oem_char(cp, bytes@[k])
                },
        ),
{
    match DECODING_TABLE_CP_MAP.get(&cp) {
        Some(table) => Some(table.decode_string_lossy(bytes)),
        None => None,
    }
}

/// `encoding_rs`'s `Encoding::decode`, which sniffs a byte order mark and
/// replaces malformed sequences: the text is a function of the encoding and the
/// bytes, and ASCII bytes stand for themselves in all three encodings.
#[verifier::external_body]
fn decode_encoded(encoding: TextEncoding, bytes: &[u8]) -> (r: String)
    requires
        decodable_len(bytes@.len()),
    ensures
        r@ == encoded_text(encoding, bytes@),
        all_ascii(bytes@) ==> r@ == ascii_chars(bytes@),
{
    let chosen = match encoding {
        TextEncoding::Utf8 => encoding_rs::UTF_8,
        TextEncoding::Windows1252 => encoding_rs::WINDOWS_1252,
        TextEncoding::ShiftJis => encoding_rs::SHIFT_JIS,
    };
    chosen.decode(bytes).0.into_owned()
}

/// `String::from_utf8_lossy`: the text is a function of the bytes, and it is
/// the text that the bytes encode where they are well-formed UTF-8.
#[verifier::external_body]
fn decode_lossy(bytes: &[u8]) -> (r: String)
    requires
        decodable_len(bytes@.len()),
    ensures
        r@ == lossy_utf8(bytes@),
        valid_utf8(bytes@) ==> r@ == decode_utf8(bytes@),
{
    String::from_utf8_lossy(bytes).into_owned()
}

/// Maps an ESC/POS code page number (from `ESC t n`) to the Windows number of
/// the OEM page. The other pages, such as Windows-1252 and Shift-JIS, give
/// `None`.
pub fn escpos_to_windows_cp(escpos_cp: u8) -> (r: Option<u16>)
    ensures
        r == windows_code_page(escpos_cp),
{
    match escpos_cp {
        0 => Some(437),
        2 => Some(850),
        3 => Some(860),
        4 => Some(863),
        5 => Some(865),
        14 | 19 => Some(858),
        17 => Some(866),
        18 => Some(852),
        _ => None,
    }
}

/// The encoding that `ESC t n` selects for pages that are not OEM pages.
pub fn encoding_for(escpos_cp: u8) -> (r: TextEncoding)
    ensures
        r == selected_encoding(escpos_cp),
{
    match escpos_cp {
        20 | 21 | 255 => TextEncoding::ShiftJis,
        _ => TextEncoding::Windows1252,
    }
}

/// Decodes the bytes of a line: OEM pages through their tables, the others in
/// the given encoding.
pub fn decode_line(code_page: u8, encoding: TextEncoding, bytes: &[u8]) -> (r: String)
    requires
        decodable_len(bytes@.len()),
    ensures
        r@ == line_text(code_page, encoding, bytes@),
{
    match escpos_to_windows_cp(code_page) {
        Some(cp) => match decode_oem(cp, bytes) {
            Some(text) => {
                assert(text@ =~= oem_text(cp, bytes@));
                text
            },
            None => decode_lossy(bytes),
        },
        None => decode_encoded(encoding, bytes),
    }
}

/// Decodes bytes that are meant to be UTF-8, replacing ill-formed parts.
pub fn decode_utf8_lossy(bytes: &[u8]) -> (r: String)
    requires
        decodable_len(bytes@.len()),
    ensures
        r@ == utf8_text(bytes@),
{
    decode_lossy(bytes)
}

/// Every OEM page that can be selected has a decoding table.
pub proof fn oem_pages_have_tables(escpos_cp: u8)
    ensures
        windows_code_page(escpos_cp) matches Some(cp) ==> has_oem_table(cp),
{
}

} // verus!
