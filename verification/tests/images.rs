use escpresso::bitmap::{Bitmap, HRI_LINE_HEIGHT};
use escpresso::element::{HriPosition, ReceiptElement};
use escpresso::raster::{column_to_raster, raster_grays};
use escpresso::renderer::EscPosRenderer;
use escpresso::state::Device;

fn print(bytes: &[u8]) -> Vec<ReceiptElement> {
    let mut device = Device::default();
    let mut renderer = EscPosRenderer::new(false);
    assert!(renderer.accepts(bytes));
    renderer.process_data(&mut device, bytes);
    renderer.take_elements()
}

#[test]
fn raster_image_prints_dot_for_dot() {
    let elements = print(b"above\x1dv0\x00\x02\x00\x01\x00\xf0\x0f");
    assert_eq!(elements.len(), 2);
    match &elements[1] {
        ReceiptElement::RasterImage { width, height, data, bytes_per_line, .. } => {
            assert_eq!((*width, *height, *bytes_per_line), (16, 1, 2));
            assert_eq!(data, &vec![0xf0, 0x0f]);
        }
        other => panic!("{:?}", other),
    }
}

#[test]
fn text_after_an_image_waits_for_a_line_end() {
    let elements = print(b"\x1dv0\x00\x01\x00\x01\x00\xffstray\nkept\n");
    assert_eq!(elements.len(), 3);
    assert!(matches!(elements[1], ReceiptElement::Separator));
    assert!(matches!(&elements[2], ReceiptElement::Text { content, .. } if content == "kept"));
}

#[test]
fn empty_and_oversized_raster_images_print_nothing() {
    let elements = print(b"\x1dv0\x00\x00\x00\x05\x00A\n");
    assert_eq!(elements.len(), 1);
    assert!(matches!(&elements[0], ReceiptElement::Text { content, .. } if content == "A"));
    // 1251 bytes are 10008 dots: too wide, but skipped.
    let mut bytes = b"\x1dv0\x00\xe3\x04\x01\x00".to_vec();
    bytes.extend(vec![0x41; 1251]);
    bytes.extend_from_slice(b"B\n");
    let elements = print(&bytes);
    assert_eq!(elements.len(), 1);
    assert!(matches!(&elements[0], ReceiptElement::Text { content, .. } if content == "B"));
}

#[test]
fn column_image_is_turned_into_rows() {
    // Two columns of eight dots: the left one full, the right one with the top dot.
    let elements = print(&[0x1b, b'*', 0, 2, 0, 0xff, 0x80]);
    match &elements[0] {
        ReceiptElement::RasterImage { width, height, data, bytes_per_line, .. } => {
            assert_eq!((*width, *height, *bytes_per_line), (2, 8, 1));
            assert_eq!(data, &vec![0xc0, 0x80, 0x80, 0x80, 0x80, 0x80, 0x80, 0x80]);
        }
        other => panic!("{:?}", other),
    }
}

#[test]
fn column_image_of_24_dots() {
    let elements = print(&[0x1b, b'*', 33, 1, 0, 0x80, 0x01, 0xff]);
    match &elements[0] {
        ReceiptElement::RasterImage { height, data, .. } => {
            assert_eq!(*height, 24);
            let rows: Vec<u8> = (0..24).map(|y| if y == 0 || y >= 15 { 0x80 } else { 0 }).collect();
            assert_eq!(data, &rows);
        }
        other => panic!("{:?}", other),
    }
}

#[test]
fn column_data_that_is_missing_is_white() {
    assert_eq!(column_to_raster(&[0xff], 2, 8), vec![0x80; 8]);
    assert_eq!(column_to_raster(&[], 9, 1), vec![0, 0]);
    assert_eq!(column_to_raster(&[0xff], 1, 10), vec![0x80, 0x80, 0x80, 0x80, 0x80, 0x80, 0x80, 0x80, 0, 0]);
}

#[test]
fn column_image_without_width_is_skipped() {
    let elements = print(&[0x1b, b'*', 0, 0, 0, b'A', 0x0a]);
    assert_eq!(elements.len(), 1);
    assert!(matches!(&elements[0], ReceiptElement::Text { content, .. } if content == "A"));
}

#[test]
fn graphics_command_prints_an_image() {
    let mut bytes = vec![0x1d, b'8', b'L', 14, 0, 0, 0, 112, 48, 1, 1, 1, 49, 10, 0, 2, 0];
    bytes.extend_from_slice(&[0xff, 0xc0, 0x00, 0x40]);
    let elements = print(&bytes);
    match &elements[0] {
        ReceiptElement::RasterImage { width, height, data, bytes_per_line, .. } => {
            assert_eq!((*width, *height, *bytes_per_line), (10, 2, 2));
            assert_eq!(data, &vec![0xff, 0xc0, 0x00, 0x40]);
        }
        other => panic!("{:?}", other),
    }
}

#[test]
fn other_graphics_functions_are_skipped() {
    let mut bytes = vec![0x1d, b'8', b'L', 8, 0, 0, 0, 1, 50, 1, 1, 1, 49, b'x', b'y'];
    bytes.extend_from_slice(b"A\n");
    let elements = print(&bytes);
    assert_eq!(elements.len(), 1);
    assert!(matches!(&elements[0], ReceiptElement::Text { content, .. } if content == "A"));
}

#[test]
fn grays_follow_density() {
    for (density, ink) in [(0u8, 180u8), (1, 130), (2, 80), (3, 0), (8, 0)] {
        assert_eq!(
            raster_grays(3, 2, &[0b1010_0000, 0b0100_0000], density, 1),
            Some(vec![ink, 255, ink, 255, ink, 255])
        );
    }
    assert_eq!(raster_grays(2, 2, &[0xff], 4, 1), Some(vec![0, 0, 255, 255]));
    assert_eq!(raster_grays(usize::MAX, 2, &[], 4, 1), None);
    assert_eq!(raster_grays(1, 2, &[0x80], 4, usize::MAX), Some(vec![0, 255]));
}

#[test]
fn scaling_makes_squares() {
    let b = Bitmap { width: 2, height: 1, dark: vec![true, false] };
    let s = b.try_scale(2).unwrap();
    assert_eq!((s.width, s.height), (4, 2));
    assert_eq!(s.dark, vec![true, true, false, false, true, true, false, false]);
    let wide = Bitmap { width: 1, height: 1, dark: vec![true] };
    assert!(wide.try_scale(usize::MAX).is_none());
}

#[test]
fn barcode_has_free_rows_for_its_text() {
    let bars = Bitmap { width: 2, height: 1, dark: vec![false, true] };
    let plain = bars.barcode(2, 1, HriPosition::Hidden).unwrap();
    assert_eq!((plain.width, plain.height), (2, 2));
    assert_eq!(plain.dark, vec![false, true, false, true]);
    let above = bars.barcode(1, 1, HriPosition::Above).unwrap();
    assert_eq!(above.height, 1 + HRI_LINE_HEIGHT);
    assert!(above.dark[..2 * HRI_LINE_HEIGHT].iter().all(|d| !d));
    assert_eq!(above.dark[2 * HRI_LINE_HEIGHT..], [false, true]);
    let both = bars.barcode(1, 2, HriPosition::Both).unwrap();
    assert_eq!((both.width, both.height), (4, 29));
    assert_eq!(both.dark[4 * HRI_LINE_HEIGHT..4 * HRI_LINE_HEIGHT + 4], [false, false, true, true]);
    assert!(both.dark[4 * HRI_LINE_HEIGHT + 4..].iter().all(|d| !d));
    let below = bars.barcode(1, 1, HriPosition::Below).unwrap();
    assert_eq!(below.dark[..2], [false, true]);
}

#[test]
fn debugging_keeps_raster_images_for_inspection() {
    let mut device = Device::default();
    let mut renderer = EscPosRenderer::new(true);
    renderer.process_data(&mut device, b"\x1dv0\x00\x02\x00\x01\x00\xf0\x0f");
    let dumps = renderer.take_raster_dumps();
    assert_eq!(dumps.len(), 1);
    assert_eq!(dumps[0].file_name(), "raster_16x1.pbm");
    assert_eq!(dumps[0].pbm_file(), b"P4\n16 1\n\xf0\x0f".to_vec());
    assert!(renderer.take_raster_dumps().is_empty());
    let mut quiet = EscPosRenderer::new(false);
    quiet.process_data(&mut device, b"\x1dv0\x00\x02\x00\x01\x00\xf0\x0f");
    assert!(quiet.take_raster_dumps().is_empty());
}

#[test]
fn turning_twice_gives_the_image_back() {
    let data: Vec<u8> = (0..48u32).map(|k| (k * 37 + 11) as u8).collect();
    let rows = column_to_raster(&data, 16, 24);
    assert_ne!(rows, data);
    assert_eq!(column_to_raster(&rows, 24, 16), data);
    let dots = |bytes: &[u8]| bytes.iter().map(|b| b.count_ones()).sum::<u32>();
    assert_eq!(dots(&rows), dots(&data));
}
