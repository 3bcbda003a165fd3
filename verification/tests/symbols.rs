use escpresso::bitmap::Bitmap;
use escpresso::element::{Barcode2DVariant, BarcodeType, HriPosition};
use escpresso::symbol::{
    is_readable, qr_picture, render_barcode, render_barcode_2d, render_qr_code,
    symbol_picture, text_barcode, text_barcode_2d, QrFault, SymbolFault, Symbology,
};

#[test]
fn qr_code_is_a_scaled_square() {
    let small = render_qr_code("HELLO", 1).unwrap();
    assert_eq!((small.width, small.height), (21, 21));
    let row: Vec<bool> = (0..8).map(|x| x < 7).collect();
    assert_eq!(small.dark[..8], row[..]);
    let large = render_qr_code("HELLO", 3).unwrap();
    assert_eq!((large.width, large.height), (63, 63));
    for y in 0..63 {
        for x in 0..63 {
            assert_eq!(large.dark[y * 63 + x], small.dark[(y / 3) * 21 + x / 3]);
        }
    }
    assert_eq!(render_qr_code("HELLO", 0).unwrap().width, 21);
    assert_eq!(render_qr_code("HELLO", 16).unwrap().width, 21 * 8);
}

#[test]
fn too_much_data_for_a_qr_code() {
    let text = "a".repeat(3000);
    assert_eq!(render_qr_code(&text, 3).unwrap_err(), QrFault::DataTooLong);
}

#[test]
fn qr_picture_of_given_modules() {
    let code = Bitmap { width: 2, height: 2, dark: vec![true, false, false, true] };
    assert_eq!(qr_picture(&code, 1).dark, code.dark);
    assert_eq!(qr_picture(&code, 2).width, 4);
}

#[test]
fn ean_13_bars() {
    let b = render_barcode(b"123456789012", BarcodeType::Ean13, 5, 1, HriPosition::Hidden)
        .unwrap()
        .unwrap();
    assert_eq!(b.height, 5);
    assert_eq!(b.dark.len(), b.width * b.height);
    let row: String = b.dark[..b.width].iter().map(|d| if *d { '1' } else { '0' }).collect();
    let bars = row.trim_matches('0');
    assert_eq!(bars.len(), 95);
    assert!(bars.starts_with("101"));
    assert!(bars.ends_with("101"));
    assert_eq!(&bars[45..50], "01010");
    assert_eq!(b.dark[b.width..2 * b.width], b.dark[..b.width]);
}

#[test]
fn barcode_text_is_wider_with_wider_modules() {
    let narrow = text_barcode("ABC", BarcodeType::Code39, 1, 1, HriPosition::Hidden).unwrap();
    let wide = text_barcode("ABC", BarcodeType::Code39, 1, 3, HriPosition::Both).unwrap();
    assert_eq!(wide.width, 3 * narrow.width);
    assert_eq!(wide.height, 29);
}

#[test]
fn every_symbology_encodes() {
    for (barcode_type, text) in [
        (BarcodeType::UpcA, "12345678901"),
        (BarcodeType::UpcE, "0123456"),
        (BarcodeType::Ean13, "123456789012"),
        (BarcodeType::Ean8, "1234567"),
        (BarcodeType::Code39, "CODE 39"),
        (BarcodeType::Itf, "123456"),
        (BarcodeType::Codabar, "A123A"),
        (BarcodeType::Code93, "CODE 93"),
        (BarcodeType::Code128, "Code 128"),
    ] {
        let b = text_barcode(text, barcode_type, 1, 1, HriPosition::Hidden).unwrap();
        assert!(b.dark.iter().any(|d| *d), "{:?}", barcode_type);
        assert!(b.dark.iter().any(|d| !*d), "{:?}", barcode_type);
    }
}

#[test]
fn data_that_cannot_be_encoded() {
    let long = "1".repeat(81);
    match text_barcode(&long, BarcodeType::Code39, 10, 1, HriPosition::Hidden) {
        Err(SymbolFault::Encoder(why)) => assert!(why.contains("less than 80"), "{}", why),
        _ => panic!("encoded"),
    }
    assert!(matches!(
        render_barcode(b"12", BarcodeType::Ean13, 10, 1, HriPosition::Hidden),
        Some(Err(SymbolFault::Encoder(_)))
    ));
    assert!(matches!(render_barcode_2d(b"", Barcode2DVariant::Pdf417, 1), Some(Err(SymbolFault::Encoder(_)))));
    assert!(matches!(
        symbol_picture(Err("no".to_string()), 1),
        Err(SymbolFault::Encoder(why)) if why == "no"
    ));
}

#[test]
fn codabar_texts_that_the_encoder_can_take_apart() {
    assert!(is_readable(Symbology::Codabar, "123"));
    assert!(is_readable(Symbology::Codabar, "A123B"));
    assert!(is_readable(Symbology::Codabar, ""));
    assert!(!is_readable(Symbology::Codabar, "\u{e9}"));
    assert!(is_readable(Symbology::Codabar, "A\u{e9}1"));
    assert!(is_readable(Symbology::Code128, "\u{e9}"));
    assert!(
        render_barcode("\u{e9}".as_bytes(), BarcodeType::Codabar, 1, 1, HriPosition::Hidden).is_none()
    );
    assert!(
        render_barcode(b"123", BarcodeType::Codabar, 1, 1, HriPosition::Hidden).unwrap().is_ok()
    );
}

#[test]
fn pdf417_modules_are_squares() {
    let one = text_barcode_2d("PDF417 data", Barcode2DVariant::Pdf417, 1).unwrap();
    let zero = text_barcode_2d("PDF417 data", Barcode2DVariant::Pdf417, 0).unwrap();
    assert_eq!(one.dark, zero.dark);
    let two = text_barcode_2d("PDF417 data", Barcode2DVariant::Pdf417, 2).unwrap();
    assert_eq!((two.width, two.height), (2 * one.width, 2 * one.height));
    assert!(one.dark.iter().any(|d| *d));
}

#[test]
fn picture_that_is_too_large() {
    let bits = Bitmap { width: usize::MAX, height: 0, dark: vec![] };
    assert!(matches!(symbol_picture(Ok(bits), 2), Err(SymbolFault::TooLarge)));
}

#[test]
fn datamatrix_of_six_digits() {
    let b = render_barcode_2d(b"123456", Barcode2DVariant::DataMatrix, 1).unwrap().unwrap();
    assert_eq!((b.width, b.height), (10, 10));
    let rows: Vec<String> = b
        .dark
        .chunks(10)
        .map(|row| row.iter().map(|d| if *d { '#' } else { '.' }).collect())
        .collect();
    assert_eq!(rows[0], "#.#.#.#.#.");
    assert_eq!(rows[9], "##########");
    for (y, row) in rows.iter().enumerate() {
        assert!(row.starts_with('#'));
        assert_eq!(row.ends_with('#'), y % 2 == 1);
    }
    let three = render_barcode_2d(b"123456", Barcode2DVariant::DataMatrix, 3).unwrap().unwrap();
    assert_eq!((three.width, three.height), (30, 30));
    assert_eq!(three.dark[31 * 3], b.dark[11]);
}

#[test]
fn datamatrix_takes_ascii_up_to_a_length() {
    for text in ["ABCDEFGHIJKL", "abc def ghi", "A1*B2>C3 D4*", "[)>\u{1e}05\u{1d}X\u{1e}\u{4}", "\u{1}\u{2}~{|}"] {
        assert!(is_readable(Symbology::DataMatrix, text));
        assert!(text_barcode_2d(text, Barcode2DVariant::DataMatrix, 1).is_ok(), "{:?}", text);
    }
    for c in ["\u{1}", "a", "A", "Z1", "~", "Aa", "*", "A\u{7f}b"] {
        let text = c.repeat(750 / c.chars().count());
        let _ = text_barcode_2d(&text, Barcode2DVariant::DataMatrix, 1);
    }
    assert!(!is_readable(Symbology::DataMatrix, &"A".repeat(751)));
    assert!(render_barcode_2d(&[b'A'; 751], Barcode2DVariant::DataMatrix, 1).is_none());
    assert!(matches!(
        render_barcode_2d(b"", Barcode2DVariant::DataMatrix, 1),
        Some(Err(SymbolFault::Encoder(_)))
    ));
}

#[test]
fn datamatrix_takes_latin1_up_to_a_length() {
    for text in ["\u{e9}", "caf\u{e9}", "M\u{fc}ller & S\u{f6}hne", "\u{c9}\u{c8}\u{e9}\u{e8}\u{ff}\u{80}"] {
        assert!(is_readable(Symbology::DataMatrix, text));
        let b = render_barcode_2d(text.as_bytes(), Barcode2DVariant::DataMatrix, 1).unwrap();
        assert!(b.is_ok(), "{:?}", text);
    }
    for c in ["\u{e9}", "a\u{e9}", "AAAA\u{c9}", "aaaaaaa\u{e9}\u{c9}", "\u{c9}1*"] {
        let text = c.repeat(350 / c.chars().count());
        let _ = text_barcode_2d(&text, Barcode2DVariant::DataMatrix, 1);
    }
    assert!(!is_readable(Symbology::DataMatrix, &"\u{e9}".repeat(351)));
    assert!(!is_readable(Symbology::DataMatrix, "[\u{e9}"));
    assert!(is_readable(Symbology::DataMatrix, "[e"));
}

#[test]
fn datamatrix_refuses_what_is_not_latin1() {
    let long = "\u{20ac}".repeat(5000);
    assert!(is_readable(Symbology::DataMatrix, &long));
    match render_barcode_2d(long.as_bytes(), Barcode2DVariant::DataMatrix, 1) {
        Some(Err(SymbolFault::Encoder(why))) => assert!(why.contains("ISO-8859-1"), "{}", why),
        _ => panic!("encoded"),
    }
}

#[test]
fn datamatrix_of_a_thousand_digits() {
    let b = render_barcode_2d(&[b'7'; 1000], Barcode2DVariant::DataMatrix, 1).unwrap().unwrap();
    // 500 codewords take the symbol for 576.
    assert_eq!((b.width, b.height), (88, 88));
    assert!(is_readable(Symbology::DataMatrix, &"7".repeat(3116)));
    assert!(!is_readable(Symbology::DataMatrix, &"7".repeat(3117)));
}
