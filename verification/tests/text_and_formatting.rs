use escpresso::codepage::{decode_line, decode_utf8_lossy, encoding_for, escpos_to_windows_cp, TextEncoding};
use escpresso::element::{Alignment, ReceiptElement};
use escpresso::renderer::EscPosRenderer;
use escpresso::state::Device;

fn print(bytes: &[u8]) -> Vec<ReceiptElement> {
    let mut device = Device::default();
    let mut renderer = EscPosRenderer::new(false);
    assert!(renderer.accepts(bytes));
    renderer.process_data(&mut device, bytes);
    renderer.take_elements()
}

fn text_of(e: &ReceiptElement) -> &str {
    match e {
        ReceiptElement::Text { content, .. } => content,
        other => panic!("not text: {:?}", other),
    }
}

#[test]
fn line_is_printed_at_line_feed() {
    let elements = print(b"Hello\n");
    assert_eq!(elements.len(), 1);
    match &elements[0] {
        ReceiptElement::Text {
            content,
            bold,
            underline,
            double_width,
            double_height,
            inverted,
            alignment,
            density,
            offset,
            left_margin,
            character_spacing,
            double_strike,
            font,
            print_area_width,
        } => {
            assert_eq!(content, "Hello");
            assert!(!bold && !underline && !double_width && !double_height && !inverted);
            assert_eq!(*alignment, Alignment::Left);
            assert_eq!(*density, 4);
            assert_eq!((*offset, *left_margin, *character_spacing), (0, 0, 0));
            assert!(!double_strike);
            assert_eq!((*font, *print_area_width), (0, 0));
        }
        other => panic!("{:?}", other),
    }
}

#[test]
fn line_without_end_is_not_printed() {
    assert!(print(b"Hello").is_empty());
}

#[test]
fn carriage_return_prints_and_adds_no_blank_line() {
    let elements = print(b"one\r\r\ntwo\r");
    assert_eq!(elements.len(), 3);
    assert_eq!(text_of(&elements[0]), "one");
    assert!(matches!(elements[1], ReceiptElement::Separator));
    assert_eq!(text_of(&elements[2]), "two");
}

#[test]
fn blank_lines_follow_output_only() {
    assert!(print(b"\n\n").is_empty());
    let elements = print(b"\nA\n\n");
    assert_eq!(elements.len(), 2);
    assert!(matches!(elements[1], ReceiptElement::Separator));
}

#[test]
fn tab_is_four_spaces_and_backspace_erases() {
    assert_eq!(text_of(&print(b"a\tbc\x08d\n")[0]), "a    bd");
    assert!(print(b"\x08\n").is_empty());
}

#[test]
fn form_feed_drops_line_and_does_not_repeat() {
    let elements = print(b"lost\x0c\x0cnext\n\x0c");
    assert_eq!(elements.len(), 3);
    assert!(matches!(elements[0], ReceiptElement::FormFeed));
    assert_eq!(text_of(&elements[1]), "next");
    assert!(matches!(elements[2], ReceiptElement::FormFeed));
}

#[test]
fn control_characters_are_skipped() {
    let elements = print(b"a\x00\x01\x02\x03\x04\x05\x06\x07\x0b\x0e\x0f\x11\x13\x14\x17\x18\x1e\x1f\x7fb\n");
    assert_eq!(text_of(&elements[0]), "ab");
}

#[test]
fn formatting_commands_change_the_next_line() {
    let elements = print(b"\x1bE\x01\x1b-\x02\x1ba\x02\x1dB\x01\x1b~\x09\x1b \x05\x1bM\x01\x1bG\x01\x1dL\x10\x01\x1dW\x00\x02X\n");
    match &elements[0] {
        ReceiptElement::Text {
            bold,
            underline,
            inverted,
            alignment,
            density,
            left_margin,
            character_spacing,
            double_strike,
            font,
            print_area_width,
            ..
        } => {
            assert!(*bold && *underline && *inverted && *double_strike);
            assert_eq!(*alignment, Alignment::Right);
            assert_eq!(*density, 8);
            assert_eq!(*left_margin, 0x0110);
            assert_eq!(*character_spacing, 5);
            assert_eq!(*font, 1);
            assert_eq!(*print_area_width, 512);
        }
        other => panic!("{:?}", other),
    }
}

#[test]
fn ascii_digits_do_not_switch_bold_or_underline_on() {
    match &print(b"\x1bE1\x1b-1X\n")[0] {
        ReceiptElement::Text { bold, underline, content, .. } => {
            assert!(!bold && !underline);
            assert_eq!(content, "X");
        }
        other => panic!("{:?}", other),
    }
}

#[test]
fn print_mode_and_char_size_bits() {
    match &print(b"\x1b!\xb8X\n")[0] {
        ReceiptElement::Text { bold, underline, double_width, double_height, .. } => {
            assert!(*bold && *underline && *double_width && *double_height);
        }
        other => panic!("{:?}", other),
    }
    match &print(b"\x1d!\x07X\n")[0] {
        ReceiptElement::Text { double_width, double_height, .. } => {
            assert!(*double_width && !*double_height);
        }
        other => panic!("{:?}", other),
    }
    match &print(b"\x1d!\x88X\n")[0] {
        ReceiptElement::Text { double_width, double_height, .. } => {
            assert!(!*double_width && !*double_height);
        }
        other => panic!("{:?}", other),
    }
}

#[test]
fn dc2_cancels_bold_or_sets_density() {
    match &print(b"\x1bE\x01\x12#\xffX\n")[0] {
        ReceiptElement::Text { bold, density, content, .. } => {
            assert!(*bold);
            assert_eq!(*density, 7);
            assert_eq!(content, "X");
        }
        other => panic!("{:?}", other),
    }
    match &print(b"\x1bE\x01\x12X\n")[0] {
        ReceiptElement::Text { bold, .. } => assert!(!*bold),
        other => panic!("{:?}", other),
    }
}

#[test]
fn horizontal_offset_is_used_once() {
    let elements = print(b"\x1b$\x2c\x01A\nB\n");
    let offsets: Vec<u16> = elements
        .iter()
        .map(|e| match e {
            ReceiptElement::Text { offset, .. } => *offset,
            other => panic!("{:?}", other),
        })
        .collect();
    assert_eq!(offsets, vec![300, 0]);
}

#[test]
fn relative_moves_are_added() {
    for (bytes, expected) in [
        (b"\x1b$\x0a\x00\x1b\\\x05\x00A\n".to_vec(), 15u16),
        (b"\x1b$\x0a\x00\x1b\\\xfb\xffA\n".to_vec(), 5),
        (b"\x1b$\x0a\x00\x1b\\\xec\xffA\n".to_vec(), 0),
        (b"\x1b$\x30\x75\x1b\\\x10\x27A\n".to_vec(), 40000),
        (b"\x1b$\x00\xf0\x1b\\\xff\x7fA\n".to_vec(), 65535),
        (b"\x1b$\x00\xf0\x1b\\\xff\xffA\n".to_vec(), 0xefff),
    ] {
        match &print(&bytes)[0] {
            ReceiptElement::Text { offset, .. } => assert_eq!(*offset, expected),
            other => panic!("{:?}", other),
        }
    }
}

#[test]
fn initialize_resets_formatting() {
    match &print(b"\x1bE\x01\x1ba\x01\x1b$\x05\x00\x1bt\x10\x1b@\x82\n")[0] {
        ReceiptElement::Text { bold, alignment, offset, content, .. } => {
            assert!(!*bold);
            assert_eq!(*alignment, Alignment::Left);
            assert_eq!(*offset, 0);
            assert_eq!(content, "\u{e9}");
        }
        other => panic!("{:?}", other),
    }
}

#[test]
fn feed_lines_prints_then_feeds() {
    let elements = print(b"A\x1bd\x03");
    assert_eq!(elements.len(), 3);
    assert_eq!(text_of(&elements[0]), "A");
    assert!(matches!(elements[1], ReceiptElement::Separator));
    assert!(matches!(elements[2], ReceiptElement::Separator));
    assert!(print(b"\x1bd\x05").is_empty());
    assert!(print(b"A\x1bd\x00").is_empty());
}

#[test]
fn feed_dots_is_four_lines_at_most() {
    for (dots, lines) in [(0u8, 0usize), (1, 1), (24, 1), (25, 2), (96, 4), (255, 4)] {
        assert_eq!(print(&[0x1b, b'J', dots]).len(), lines);
    }
    let elements = print(b"A\x1bJ\x18");
    assert_eq!(elements.len(), 2);
    assert_eq!(text_of(&elements[0]), "A");
}

#[test]
fn escpos_code_pages() {
    let expected = [
        (0u8, Some(437u16)),
        (1, None),
        (2, Some(850)),
        (3, Some(860)),
        (4, Some(863)),
        (5, Some(865)),
        (14, Some(858)),
        (16, None),
        (17, Some(866)),
        (18, Some(852)),
        (19, Some(858)),
        (20, None),
        (255, None),
    ];
    for (page, windows) in expected {
        assert_eq!(escpos_to_windows_cp(page), windows);
    }
    assert_eq!(encoding_for(16), TextEncoding::Windows1252);
    assert_eq!(encoding_for(21), TextEncoding::ShiftJis);
    assert_eq!(encoding_for(99), TextEncoding::Windows1252);
}

#[test]
fn lines_are_decoded_by_code_page() {
    assert_eq!(text_of(&print(b"caf\x82 \n")[0]), "caf\u{e9} ");
    assert_eq!(text_of(&print(b"\x1bt\x11\x8f\xe0\xa8\n")[0]), "\u{41f}\u{440}\u{438}");
    assert_eq!(text_of(&print(b"\x1bt\x13\xd5\n")[0]), "\u{20ac}");
    assert_eq!(text_of(&print(b"\x1bt\x10\x80\n")[0]), "\u{20ac}");
    assert_eq!(text_of(&print(b"\x1bt\x14\x83\x65\n")[0]), "\u{30c6}");
}

#[test]
fn ascii_is_the_same_in_every_encoding() {
    let ascii: Vec<u8> = (0x20u8..0x7f).collect();
    let text: String = ascii.iter().map(|b| *b as char).collect();
    for page in 0..=255u8 {
        for encoding in [TextEncoding::Utf8, TextEncoding::Windows1252, TextEncoding::ShiftJis] {
            assert_eq!(decode_line(page, encoding, &ascii), text);
        }
    }
}

#[test]
fn utf8_is_decoded_and_repaired() {
    assert_eq!(decode_line(16, TextEncoding::Utf8, "h\u{e9}".as_bytes()), "h\u{e9}");
    assert_eq!(decode_utf8_lossy("\u{20ac}5".as_bytes()), "\u{20ac}5");
    assert_eq!(decode_utf8_lossy(&[0x41, 0xff, 0x42]), "A\u{fffd}B");
}
