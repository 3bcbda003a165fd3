use escpresso::element::{Barcode2DVariant, BarcodeType, HriPosition, ReceiptElement};
use escpresso::renderer::EscPosRenderer;
use escpresso::state::{Device, PrinterState, PrinterStatus, Setting, SymbolSetting, SymbolSettings};

struct Printer {
    renderer: EscPosRenderer,
    device: Device,
}

impl Printer {
    fn new() -> Self {
        Printer { renderer: EscPosRenderer::new(false), device: Device::default() }
    }

    fn send(&mut self, bytes: &[u8]) -> Vec<ReceiptElement> {
        assert!(self.renderer.accepts(bytes));
        self.renderer.process_data(&mut self.device, bytes);
        self.renderer.take_elements()
    }
}

#[test]
fn cuts_are_named() {
    for (mode, name) in [
        (0u8, "FULL CUT"),
        (48, "FULL CUT"),
        (1, "PARTIAL CUT"),
        (49, "PARTIAL CUT"),
        (65, "FEED & FULL CUT"),
        (66, "FEED & PARTIAL CUT"),
        (7, "UNKNOWN CUT"),
    ] {
        let elements = Printer::new().send(&[0x1d, b'V', mode]);
        assert_eq!(elements.len(), 1);
        assert!(matches!(&elements[0], ReceiptElement::PaperCut { cut_type } if cut_type == name));
    }
}

#[test]
fn cut_prints_the_line_and_keeps_it() {
    let elements = Printer::new().send(b"AB\x1dV\x00\n");
    assert_eq!(elements.len(), 3);
    assert!(matches!(&elements[0], ReceiptElement::Text { content, .. } if content == "AB"));
    assert!(matches!(&elements[1], ReceiptElement::PaperCut { .. }));
    assert!(matches!(&elements[2], ReceiptElement::Text { content, .. } if content == "AB"));
}

#[test]
fn drawer_opens_and_stays_open() {
    let mut p = Printer::new();
    let elements = p.send(&[0x1b, b'p', 0, 25, 250]);
    assert!(matches!(
        elements[0],
        ReceiptElement::CashDrawer { pin: 0, on_time: 25, off_time: 250 }
    ));
    assert!(p.device.printer_status.drawer_open);
    p.send(b"\x1b@text\n");
    assert!(p.device.printer_status.drawer_open);
}

#[test]
fn real_time_status_bytes() {
    for (online, cover_closed, paper_present, expected) in [
        (true, true, true, 0x12u8),
        (true, true, false, 0x12),
        (true, false, true, 0x32),
        (false, true, true, 0x02),
        (false, false, true, 0x22),
    ] {
        let mut p = Printer::new();
        p.device.printer_status =
            PrinterStatus { paper_present, cover_closed, drawer_open: false, online };
        p.send(&[0x10, 0x04, 1, 0x10, 0x05, 1]);
        assert_eq!(p.renderer.take_responses(), vec![expected, expected]);
        assert!(p.renderer.take_responses().is_empty());
    }
}

#[test]
fn transmitted_and_automatic_status_bytes() {
    let mut p = Printer::new();
    p.send(&[0x1d, b'r', 1, 0x1d, b'a', 0, 0x1d, b'a', 255]);
    assert_eq!(p.renderer.take_responses(), vec![0x08, 0x10, 0, 0, 0]);
    p.device.printer_status =
        PrinterStatus { paper_present: false, cover_closed: false, drawer_open: true, online: false };
    p.send(&[0x1d, b'r', 1, 0x1d, b'a', 4]);
    assert_eq!(p.renderer.take_responses(), vec![0x10, 0x3c, 0, 0x0c, 0]);
}

#[test]
fn printer_identifies_itself() {
    let mut p = Printer::new();
    p.send(&[0x1d, b'I', 0x42, 0x1d, b'I', 0x43, 0x1d, b'I', 0x01]);
    assert_eq!(p.renderer.take_responses(), b"\x5fCITIZEN\x00\x5fCT-S310\x00".to_vec());
}

#[test]
fn commands_are_logged() {
    let mut p = Printer::new();
    p.send(b"\x1b@\x1dV\x00\x1c.x\x10\x04\x01\x1b\xe9\x01");
    let log: Vec<(&str, &str)> = p
        .device
        .command_log
        .iter()
        .map(|e| (e.hex.as_str(), e.description.as_str()))
        .collect();
    assert_eq!(
        log,
        vec![
            ("1B 40", "ESC @"),
            ("1D 56", "GS V"),
            ("1C 2E", "FS ."),
            ("1B E9", "ESC \u{e9}")
        ]
    );
}

#[test]
fn barcodes_of_both_forms() {
    let mut p = Printer::new();
    let elements = p.send(b"\x1dH\x02\x1dh\x00\x1dw\x09\x1dk\x04ABC\x00\x1dk\x49\x02XY\x1dk\x02\x00");
    assert_eq!(elements.len(), 2);
    match &elements[0] {
        ReceiptElement::Barcode { data, barcode_type, height, module_width, hri_position, .. } => {
            assert_eq!(data, b"ABC");
            assert_eq!(*barcode_type, BarcodeType::Code39);
            assert_eq!((*height, *module_width), (1, 6));
            assert_eq!(*hri_position, HriPosition::Below);
        }
        other => panic!("{:?}", other),
    }
    match &elements[1] {
        ReceiptElement::Barcode { data, barcode_type, .. } => {
            assert_eq!(data, b"XY");
            assert_eq!(*barcode_type, BarcodeType::Code128);
        }
        other => panic!("{:?}", other),
    }
}

#[test]
fn every_barcode_system_has_its_type() {
    let types = [
        BarcodeType::UpcA,
        BarcodeType::UpcE,
        BarcodeType::Ean13,
        BarcodeType::Ean8,
        BarcodeType::Code39,
        BarcodeType::Itf,
        BarcodeType::Codabar,
        BarcodeType::Code93,
        BarcodeType::Code128,
    ];
    for (k, expected) in types.iter().enumerate() {
        let counted = Printer::new().send(&[0x1d, b'k', 65 + k as u8, 1, b'1']);
        assert!(
            matches!(&counted[0], ReceiptElement::Barcode { barcode_type, .. } if barcode_type == expected)
        );
        if k < 6 {
            let ended = Printer::new().send(&[0x1d, b'k', k as u8, b'1', 0]);
            assert!(
                matches!(&ended[0], ReceiptElement::Barcode { barcode_type, .. } if barcode_type == expected)
            );
        }
    }
    assert!(Printer::new().send(&[0x1d, b'k', 74]).is_empty());
}

fn store(family: u8, data: &[u8]) -> Vec<u8> {
    let n = data.len() + 3;
    let mut bytes = vec![0x1d, b'(', b'k', (n % 256) as u8, (n / 256) as u8, family, 80, 48];
    bytes.extend_from_slice(data);
    bytes
}

fn print(family: u8, function: u8) -> Vec<u8> {
    vec![0x1d, b'(', b'k', 3, 0, family, function, 48]
}

#[test]
fn stored_qr_code_prints_once() {
    let mut p = Printer::new();
    p.send(&[0x1d, b'(', b'k', 3, 0, 49, 67, 30]);
    assert!(p.send(&store(49, b"https://example.org")).is_empty());
    let elements = p.send(&print(49, 81));
    match &elements[0] {
        ReceiptElement::QrCode { data, size, .. } => {
            assert_eq!(data, "https://example.org");
            assert_eq!(*size, 16);
        }
        other => panic!("{:?}", other),
    }
    assert!(p.send(&print(49, 81)).is_empty());
}

#[test]
fn ill_formed_qr_data_is_repaired() {
    let mut p = Printer::new();
    p.send(&store(49, &[b'A', 0xff]));
    let elements = p.send(&print(49, 81));
    assert!(matches!(&elements[0], ReceiptElement::QrCode { data, size: 3, .. } if data == "A\u{fffd}"));
}

#[test]
fn stored_symbols_survive_initialize() {
    let mut p = Printer::new();
    p.send(&store(48, b"pdf"));
    p.send(&store(50, b"matrix"));
    p.send(b"\x1b@line");
    let elements = p.send(&print(48, 82));
    assert_eq!(elements.len(), 2);
    assert!(matches!(&elements[0], ReceiptElement::Text { content, .. } if content == "line"));
    match &elements[1] {
        ReceiptElement::Barcode2D { data, variant, module_size, .. } => {
            assert_eq!(data, b"pdf");
            assert_eq!(*variant, Barcode2DVariant::Pdf417);
            assert_eq!(*module_size, 3);
        }
        other => panic!("{:?}", other),
    }
    let elements = p.send(&print(50, 82));
    assert!(matches!(
        &elements[0],
        ReceiptElement::Barcode2D { variant: Barcode2DVariant::DataMatrix, .. }
    ));
    assert!(p.send(&print(50, 82)).is_empty());
}

#[test]
fn symbol_parameters_are_kept_in_range() {
    let mut symbols = SymbolSettings::default();
    symbols.set(SymbolSetting::Parameter { family: 48, function: 67, value: 0 });
    symbols.set(SymbolSetting::Parameter { family: 50, function: 67, value: 99 });
    symbols.set(SymbolSetting::Parameter { family: 48, function: 65, value: 7 });
    symbols.set(SymbolSetting::Parameter { family: 48, function: 66, value: 9 });
    symbols.set(SymbolSetting::Parameter { family: 48, function: 69, value: 5 });
    symbols.set(SymbolSetting::Parameter { family: 48, function: 70, value: 1 });
    symbols.set(SymbolSetting::Parameter { family: 49, function: 69, value: 51 });
    assert_eq!(symbols.pdf417_module_width, 1);
    assert_eq!(symbols.datamatrix_module_size, 8);
    assert_eq!((symbols.pdf417_columns, symbols.pdf417_rows), (7, 9));
    assert_eq!(symbols.pdf417_error_correction, 5);
    assert!(symbols.pdf417_truncated);
    assert_eq!(symbols.qr_error_correction, 51);
}

#[test]
fn settings_change_one_thing() {
    let mut state = PrinterState::default();
    state.set(Setting::LineSpacing(12));
    assert_eq!(state, PrinterState { line_spacing: 12, ..PrinterState::default() });
    state.set(Setting::CodePage(255));
    assert_eq!(state.code_page, 255);
    state.set(Setting::LineSpacing(30));
    assert_eq!(state.line_spacing, 30);
}

#[test]
fn nv_images_are_shared_and_survive_initialize() {
    let mut p = Printer::new();
    p.send(&[0x1c, b'q', 2, 1, 0, 2, 0, 0xAA, 0x55, 0, 0, 9, 0]);
    let mut other = EscPosRenderer::new(false);
    other.process_data(&mut p.device, &[0x1b, b'@', 0x1c, b'p', 1, 0, 0x1c, b'p', 2, 0]);
    let elements = other.take_elements();
    assert_eq!(elements.len(), 1);
    match &elements[0] {
        ReceiptElement::RasterImage { width, height, data, bytes_per_line, density, .. } => {
            assert_eq!((*width, *height, *bytes_per_line, *density), (8, 2, 1, 4));
            assert_eq!(data, &vec![0xAA, 0x55]);
        }
        other => panic!("{:?}", other),
    }
}

#[test]
fn nv_image_that_is_cut_short_is_not_defined() {
    let mut p = Printer::new();
    p.send(&[0x1c, b'q', 1, 1, 0, 4, 0, 1, 2]);
    assert!(p.device.nv_images.is_empty());
}

#[test]
fn nv_slots_are_in_order() {
    let mut p = Printer::new();
    p.send(&[0x1c, b'q', 3, 1, 0, 1, 0, 0x11, 0, 0, 1, 0, 1, 0, 1, 0, 0x33]);
    let mut slots: Vec<(u8, Vec<u8>)> =
        p.device.nv_images.iter().map(|(slot, image)| (*slot, image.data.clone())).collect();
    slots.sort();
    assert_eq!(slots, vec![(1, vec![0x11]), (3, vec![0x33])]);
}

#[test]
fn unknown_commands_are_logged_and_ignored() {
    let mut p = Printer::new();
    let elements = p.send(b"\x1bx\x01\x1dy\x02A\n");
    assert_eq!(elements.len(), 1);
    assert!(matches!(&elements[0], ReceiptElement::Text { content, .. } if content == "A"));
    assert_eq!(p.device.command_log.len(), 2);
    assert_eq!(p.device.command_log[1].hex, "1D 79");
}

#[test]
fn handlers_give_the_position_behind_the_command() {
    let mut p = Printer::new();
    let data = b"..\x1bE\x01..";
    assert_eq!(p.renderer.handle_esc_command(&mut p.device, data, 3), Some(5));
    let data = b"\x1b*\x00\x02\x00\xff";
    assert_eq!(p.renderer.handle_esc_command(&mut p.device, data, 1), None);
    assert_eq!(p.renderer.handle_raster_graphics(data, 2), None);
    let data = b"\x1dV\x41.";
    assert_eq!(p.renderer.handle_gs_command(&p.device, data, 1), Some(3));
    assert_eq!(p.renderer.handle_paper_cut(data, 2), 3);
    let data = b"\x1dv0\x00\x01\x00\x01\x00\xff.";
    assert_eq!(p.renderer.handle_raster_graphics_gs(data, 2), Some(9));
    let data = b"\x1d8L\x00";
    assert_eq!(p.renderer.handle_gs_8l(data, 2), None);
    let data = b"\x1d(k\x03\x00\x31\x51\x30";
    assert_eq!(p.renderer.handle_gs_paren_k(data, 2), Some(8));
    let data = b"\x1cC\x01.";
    assert_eq!(p.renderer.handle_fs_command(&mut p.device, data, 1), 3);
    let cuts = p.renderer.take_elements();
    assert_eq!(cuts.len(), 3);
    assert!(p.device.command_log.is_empty());
}

#[test]
fn settings_stay_in_range() {
    let mut p = Printer::new();
    for (code, n) in [(b'w', 0u8), (b'h', 0), (b'H', 9)] {
        p.renderer.handle_gs_command(&p.device, &[0x1d, code, n], 1);
    }
    let elements = p.send(b"\x1dk\x04A\x00");
    assert!(matches!(
        elements[0],
        ReceiptElement::Barcode {
            height: 1,
            module_width: 1,
            hri_position: HriPosition::Hidden,
            ..
        }
    ));
}

#[test]
fn escape_commands_leave_queues_alone() {
    let mut p = Printer::new();
    p.send(&store(49, b"kept"));
    p.send(&[0x10, 0x04, 1]);
    for code in 0..=255u8 {
        let data = [0x1b, code, 1, 0, 0, 0, 0, 0, 0, 0, 0, 0];
        if escpresso::framing::esc_extent(&data) != escpresso::framing::Extent::Overrun {
            let next = p.renderer.handle_esc_command(&mut p.device, &data, 1);
            assert!(next.unwrap() > 1);
        }
    }
    assert_eq!(p.renderer.take_responses(), vec![0x12]);
    let elements = p.send(&print(49, 81));
    assert!(
        matches!(elements.last(), Some(ReceiptElement::QrCode { data, .. }) if data == "kept")
    );
}

#[test]
fn barcode_forms_agree() {
    for system in 0..6u8 {
        let mut ended = vec![b'x', b'y', 0x1d, b'k', system];
        ended.extend_from_slice(b"12345\x00");
        let mut counted = vec![b'x', b'y', 0x1d, b'k', system + 65, 5];
        counted.extend_from_slice(b"12345");
        assert_eq!(
            format!("{:?}", Printer::new().send(&ended)),
            format!("{:?}", Printer::new().send(&counted))
        );
    }
}

#[test]
fn second_print_prints_nothing_and_keeps_the_line() {
    for (family, function) in [(48u8, 82u8), (49, 81), (50, 82)] {
        let mut p = Printer::new();
        p.send(&store(family, b"data"));
        assert_eq!(p.send(&print(family, function)).len(), 1);
        p.send(b"line.\x08");
        assert!(p.send(&print(family, function)).is_empty());
        let elements = p.send(b"\n");
        assert!(matches!(&elements[0], ReceiptElement::Text { content, .. } if content == "line"));
    }
}
