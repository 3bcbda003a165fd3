use escpresso::element::ReceiptElement;
use escpresso::framing::{check_framing, extent, Extent};
use escpresso::renderer::EscPosRenderer;
use escpresso::state::Device;

fn print_pieces(pieces: &[&[u8]]) -> String {
    let mut device = Device::default();
    let mut renderer = EscPosRenderer::new(false);
    for piece in pieces {
        assert!(renderer.accepts(piece));
        renderer.process_data(&mut device, piece);
    }
    format!("{:?}", renderer.take_elements())
}

#[test]
fn text_may_be_cut_anywhere() {
    let text = b"first line\nsecond\tline\r\nthird\n";
    let whole = print_pieces(&[text]);
    for k in 0..=text.len() {
        assert_eq!(print_pieces(&[&text[..k], &text[k..]]), whole);
    }
    let bytes: Vec<&[u8]> = text.chunks(1).collect();
    assert_eq!(print_pieces(&bytes), whole);
}

#[test]
fn raster_image_may_be_cut_behind_its_variant() {
    let stream = b"AB\n\x1dv0\x00\x02\x00\x02\x00\x1b\x1d\x0a\x41after\nend\n";
    let whole = print_pieces(&[stream]);
    for k in 0..=stream.len() {
        if k != 5 {
            assert_eq!(print_pieces(&[&stream[..k], &stream[k..]]), whole, "cut at {}", k);
        }
    }
}

#[test]
fn incomplete_commands_wait() {
    let mut device = Device::default();
    let mut renderer = EscPosRenderer::new(false);
    for piece in [&b"\x1b"[..], b"*", b"\x00\x02", b"\x00\xff"] {
        renderer.process_data(&mut device, piece);
        assert!(renderer.take_elements().is_empty());
        assert!(device.command_log.is_empty());
    }
    renderer.process_data(&mut device, b"\x80");
    assert_eq!(renderer.take_elements().len(), 1);
    assert_eq!(device.command_log.len(), 1);
}

#[test]
fn last_text_byte_waits_for_another() {
    let mut device = Device::default();
    let mut renderer = EscPosRenderer::new(false);
    renderer.process_data(&mut device, b"ab");
    renderer.process_data(&mut device, b"\x08\n");
    let elements = renderer.take_elements();
    assert!(matches!(&elements[0], ReceiptElement::Text { content, .. } if content == "a"));
}

#[test]
fn output_only_grows() {
    let mut device = Device::default();
    let mut renderer = EscPosRenderer::new(false);
    renderer.process_data(&mut device, b"A\n\x10\x04\x01");
    renderer.process_data(&mut device, b"B\n\x10\x04\x01");
    let elements = renderer.take_elements();
    assert_eq!(elements.len(), 2);
    assert!(matches!(&elements[0], ReceiptElement::Text { content, .. } if content == "A"));
    assert_eq!(renderer.take_responses().len(), 2);
}

#[test]
fn extents_of_escape_commands() {
    for (bytes, expected) in [
        (&b"\x1b"[..], Extent::Incomplete),
        (b"\x1b@X", Extent::Ends(2)),
        (b"\x1bE", Extent::Ends(2)),
        (b"\x1bE\x01", Extent::Ends(3)),
        (b"\x1b$\x01", Extent::Ends(2)),
        (b"\x1b$\x01\x02", Extent::Ends(4)),
        (b"\x1bp\x00\x01", Extent::Ends(2)),
        (b"\x1bp\x00\x01\x02", Extent::Ends(5)),
        (b"\x1bK\x02\x00ab", Extent::Ends(6)),
        (b"\x1bK\x02\x00a", Extent::Ends(4)),
        (b"\x1bY\x01\x00ab", Extent::Ends(6)),
        (b"\x1bD\x08\x10\x00X", Extent::Ends(5)),
        (b"\x1bD\x08\x10", Extent::Ends(4)),
        (b"\x1bW12345678", Extent::Ends(10)),
        (b"\x1bW1234567", Extent::Ends(3)),
        (b"\x1b(A\x01\x00X", Extent::Ends(6)),
        (b"\x1b(A\x02\x00X", Extent::Overrun),
        (b"\x1b&\x01\x41\x41ab", Extent::Ends(7)),
        (b"\x1b&\x01\x41\x40", Extent::Ends(5)),
        (b"\x1b&\x01\x41\x42ab", Extent::Overrun),
        (b"\x1b*\x21\x01\x00ab", Extent::Incomplete),
        (b"\x1b*\x21\x01\x00abc", Extent::Ends(8)),
        (b"\x1b*\x00\x11\x27", Extent::Ends(5)),
    ] {
        assert_eq!(extent(bytes), expected, "{:?}", bytes);
    }
}

#[test]
fn extents_of_group_separator_commands() {
    for (bytes, expected) in [
        (&b"\x1dV"[..], Extent::Ends(2)),
        (b"\x1dV\x00", Extent::Ends(3)),
        (b"\x1dL\x00", Extent::Ends(2)),
        (b"\x1dL\x00\x01", Extent::Ends(4)),
        (b"\x1dk\x02123", Extent::Ends(6)),
        (b"\x1dk\x02123\x00X", Extent::Ends(7)),
        (b"\x1dk\x41\x05123", Extent::Ends(7)),
        (b"\x1dk\x41", Extent::Ends(3)),
        (b"\x1dk\x20X", Extent::Ends(3)),
        (b"\x1d8", Extent::Ends(2)),
        (b"\x1d8X\x01\x00\x00", Extent::Incomplete),
        (b"\x1d8X\x01\x00\x00\x00", Extent::Incomplete),
        (b"\x1d8X\x01\x00\x00\x00a", Extent::Ends(8)),
        (b"\x1d8L\x0a\x00\x00\x00\x30\x30\x01\x01", Extent::Incomplete),
        (b"\x1d8L\x0a\x00\x00\x00\x30\x30\x01\x01\x01", Extent::Incomplete),
        (b"\x1d8L\x0a\x00\x00\x00\x30\x30\x01\x01\x01\x31", Extent::Incomplete),
        (b"\x1d(A\x02\x00ab", Extent::Ends(7)),
        (b"\x1d(A\x02\x00a", Extent::Overrun),
        (b"\x1d(A\x02", Extent::Ends(2)),
        (b"\x1d(k\x03\x00", Extent::Incomplete),
        (b"\x1d(k\x03\x00\x31", Extent::Incomplete),
        (b"\x1d(k\x03\x00\x31\x43", Extent::Ends(7)),
        (b"\x1d(k\x03\x00\x31\x43\x05", Extent::Ends(8)),
        (b"\x1d(k\x05\x00\x31\x50\x30a", Extent::Incomplete),
        (b"\x1d(k\x05\x00\x31\x50\x30ab", Extent::Ends(10)),
        (b"\x1d(k\x03\x00\x31\x51", Extent::Ends(7)),
        (b"\x1dv0\x00\x01\x00\x01", Extent::Incomplete),
        (b"\x1dv0\x00\x01\x00\x01\x00", Extent::Incomplete),
        (b"\x1dv0\x00\x01\x00\x01\x00a", Extent::Ends(9)),
        (b"\x1dv0\x00\xff\xff\xff\xff", Extent::Incomplete),
    ] {
        assert_eq!(extent(bytes), expected, "{:?}", bytes);
    }
}

#[test]
fn extents_of_other_commands() {
    for (bytes, expected) in [
        (&b"\x1c.X"[..], Extent::Ends(3)),
        (b"\x1c.\x1b", Extent::Ends(2)),
        (b"\x1cp\x01", Extent::Ends(2)),
        (b"\x1cp\x01\x00", Extent::Ends(4)),
        (b"\x1c(A\x01\x00X", Extent::Ends(6)),
        (b"\x1c(A\x05\x00X", Extent::Overrun),
        (b"\x1cC\x01", Extent::Ends(3)),
        (b"\x1cZ\x41", Extent::Ends(2)),
        (b"\x1cZ\x01\x02", Extent::Ends(3)),
        (b"\x1cZ\x90\x02\x03", Extent::Ends(4)),
        (b"\x10\x04", Extent::Ends(2)),
        (b"\x10\x04\x01", Extent::Ends(3)),
        (b"\x10\x14\x01", Extent::Ends(2)),
        (b"\x10\x14\x01\x02", Extent::Ends(4)),
        (b"\x10X", Extent::Ends(2)),
        (b"\x12", Extent::Ends(1)),
        (b"\x12#", Extent::Ends(2)),
        (b"\x12#\x05", Extent::Ends(3)),
        (b"A", Extent::Incomplete),
        (b"AB", Extent::Ends(1)),
        (b"\x0a", Extent::Ends(1)),
    ] {
        assert_eq!(extent(bytes), expected, "{:?}", bytes);
    }
}

#[test]
fn overrunning_streams_are_not_accepted() {
    let renderer = EscPosRenderer::new(false);
    assert!(!renderer.accepts(b"text\x1b(A\x09\x00X"));
    assert!(!renderer.accepts(b"\x1d(A\x03\x00\x31"));
    assert!(renderer.accepts(b"\x1d(k\x03\x00\x31"));
    assert!(renderer.accepts(b"\x1d(k\x03\x00\x31\x43\x05"));
    assert!(renderer.accepts(b""));
    assert!(check_framing(b"plain\n\x1b@"));
    assert!(!check_framing(b"plain\n\x1c(A\x05\x00X"));
}

#[test]
fn taking_elements_changes_no_later_text() {
    let mut device = Device::default();
    let mut all = EscPosRenderer::new(false);
    all.process_data(&mut device, b"A\nB\n\x1dV\x00");
    let together = format!("{:?}", &all.take_elements()[1..]);
    let mut parts = EscPosRenderer::new(false);
    parts.process_data(&mut device, b"A\n");
    assert_eq!(parts.take_elements().len(), 1);
    parts.process_data(&mut device, b"B\n\x1dV\x00");
    assert_eq!(format!("{:?}", parts.take_elements()), together);
    parts.process_data(&mut device, b"\n");
    assert!(parts.take_elements().is_empty());
}

#[test]
fn no_bytes_change_nothing() {
    let mut device = Device::default();
    let mut renderer = EscPosRenderer::new(false);
    renderer.process_data(&mut device, b"ab\x1b*\x00\x01");
    renderer.process_data(&mut device, b"");
    assert!(renderer.take_elements().is_empty() && device.command_log.is_empty());
    renderer.process_data(&mut device, b"\x00\x80");
    let elements = renderer.take_elements();
    assert_eq!(elements.len(), 2);
    assert!(matches!(&elements[0], ReceiptElement::Text { content, .. } if content == "ab"));
}

#[test]
fn stored_symbol_may_be_cut() {
    let stream = b"\x1d(k\x06\x00\x31\x50\x30abc\x1d(k\x03\x00\x31\x51\x30\n";
    let whole = print_pieces(&[stream]);
    assert!(whole.contains("abc"));
    for k in 0..=11 {
        if k != 2 {
            assert_eq!(print_pieces(&[&stream[..k], &stream[k..]]), whole, "cut at {}", k);
        }
    }
}

#[test]
fn graphics_header_may_be_cut() {
    let stream = b"\x1d8L\x0e\x00\x00\x00\x70\x30\x01\x01\x01\x31\x08\x00\x01\x00\xaaX\nY\n";
    let whole = print_pieces(&[stream]);
    for k in 3..=18 {
        assert_eq!(print_pieces(&[&stream[..k], &stream[k..]]), whole, "cut at {}", k);
    }
}

#[test]
fn oversized_graphics_end_by_their_declared_length() {
    let length = 100_001usize;
    let mut bytes = vec![0x1d, b'8', b'L'];
    bytes.extend_from_slice(&(length as u32).to_le_bytes());
    bytes.extend_from_slice(&[48, 48, 1, 1, 1, 49, 8, 0, 1, 0]);
    bytes.resize(7 + length, b'.');
    assert_eq!(extent(&bytes[..7 + length - 1]), Extent::Incomplete);
    bytes.extend_from_slice(b"\x1bE\x01after\n");
    assert_eq!(extent(&bytes), Extent::Ends(7 + length));
    let mut device = Device::default();
    let mut renderer = EscPosRenderer::new(false);
    renderer.process_data(&mut device, &bytes);
    let elements = renderer.take_elements();
    assert_eq!(elements.len(), 1);
    assert!(
        matches!(&elements[0], ReceiptElement::Text { content, bold: true, .. } if content == "after")
    );
    let mut other = EscPosRenderer::new(false);
    assert_eq!(other.handle_gs_8l(&bytes, 2), Some(7 + length));
    assert!(other.take_elements().is_empty());
}

#[test]
fn column_image_may_be_cut_anywhere() {
    let stream = b"\x1b*\x21\x02\x00\x1b\x1d\x0aABC";
    let whole = print_pieces(&[stream]);
    assert!(whole.contains("RasterImage"));
    for k in 0..=stream.len() {
        assert_eq!(print_pieces(&[&stream[..k], &stream[k..]]), whole, "cut at {}", k);
    }
}

#[test]
fn feeding_lines_is_line_feeds() {
    for start in [&b""[..], b"line.\x08", b"A\n", b"A\nB.\x08"] {
        for n in 0..5u8 {
            let feeds = vec![0x0a; n as usize];
            assert_eq!(
                print_pieces(&[start, &[0x1b, b'd', n], b"end\n"]),
                print_pieces(&[start, &feeds, b"end\n"])
            );
        }
    }
}

#[test]
fn bytes_before_an_overrun() {
    let mut device = Device::default();
    let mut renderer = EscPosRenderer::new(false);
    assert_eq!(renderer.bytes_before_overrun(b"ab\n\x1b(A\x09\x00"), 3);
    assert_eq!(renderer.bytes_before_overrun(b"ab\n\x1b@"), 5);
    assert_eq!(renderer.bytes_before_overrun(b""), 0);
    renderer.process_data(&mut device, b"x\x1b");
    assert_eq!(renderer.bytes_before_overrun(b"@\x1b(A\x09\x00"), 1);
    assert_eq!(renderer.bytes_before_overrun(b"(A\x09\x00"), 0);
}

#[test]
fn only_unfinished_commands_wait() {
    for (bytes, first) in [(&b"ab"[..], 1), (b"a\x1b*\x00", 1), (b"\x1dv0\x00\x01", 0)] {
        assert_eq!(extent(&bytes[first..]), Extent::Incomplete);
    }
    for bytes in [&b"\x1cC"[..], b"\x10\x04", b"\x12", b"\n"] {
        assert!(matches!(extent(bytes), Extent::Ends(_)));
    }
}
