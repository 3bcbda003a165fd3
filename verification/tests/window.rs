use escpresso::app_state::{is_partial_cut, AppState};
use escpresso::element::{Alignment, ReceiptElement};
use escpresso::layout::{
    effective_width, font_percent, image_scale, pulse_ms, symbol_offset_doubled, text_shade,
    ImageScale, Shade,
};
use escpresso::paper::PaperSize;
use escpresso::renderer::EscPosRenderer;
use escpresso::state::PrinterStatus;

#[test]
fn paper_sizes() {
    assert_eq!(PaperSize::Size58mm.chars_per_line(), 32);
    assert_eq!(PaperSize::Size80mm.chars_per_line(), 48);
    assert_eq!(PaperSize::Size58mm.width_px(), 384);
    assert_eq!(PaperSize::Size80mm.width_px(), 576);
    assert_eq!(PaperSize::Size58mm.label(), "58mm");
    assert_eq!(PaperSize::Size80mm.label(), "80mm");
}

#[test]
fn new_state_is_ready() {
    let state = AppState::new(9100);
    assert_eq!(state.port, 9100);
    assert_eq!(state.paper_size, PaperSize::Size80mm);
    assert!(state.elements.is_empty() && state.connections.is_empty());
    assert_eq!(state.device.printer_status, PrinterStatus::default());
    assert!(state.device.printer_status.online && !state.device.printer_status.drawer_open);
    assert!(state.device.nv_images.is_empty() && state.device.command_log.is_empty());
}

#[test]
fn connections_come_and_go() {
    let mut state = AppState::new(1);
    state.connect("10.0.0.1:5000");
    state.connect("10.0.0.2:5000");
    assert_eq!(state.connections, vec!["Connected: 10.0.0.1:5000", "Connected: 10.0.0.2:5000"]);
    state.disconnect("10.0.0.1:5000");
    assert_eq!(state.connections, vec!["Connected: 10.0.0.2:5000"]);
    state.disconnect("10.0.0.9:1");
    assert_eq!(state.connections.len(), 1);
}

#[test]
fn bytes_are_answered_and_collected() {
    let mut state = AppState::new(1);
    let mut renderer = EscPosRenderer::new(false);
    state.connect("client");
    let answer = state.receive(&mut renderer, "client", b"Hi\n\x10\x04\x01");
    assert_eq!(answer, Some(vec![0x12]));
    assert!(state.elements.is_empty());
    state.collect(&mut renderer);
    assert_eq!(state.elements.len(), 1);
    assert!(matches!(&state.elements[0], ReceiptElement::Text { content, .. } if content == "Hi"));
    state.collect(&mut renderer);
    assert_eq!(state.elements.len(), 1);
    assert_eq!(state.receive(&mut renderer, "client", b"x"), Some(vec![]));
    assert_eq!(state.receive(&mut renderer, "client", b""), None);
    assert!(state.connections.is_empty());
}

#[test]
fn changing_paper_clears_the_receipt() {
    let mut state = AppState::new(1);
    state.elements.push(ReceiptElement::Separator);
    assert!(!state.select_paper(PaperSize::Size80mm));
    assert_eq!(state.elements.len(), 1);
    assert!(state.select_paper(PaperSize::Size58mm));
    assert!(state.elements.is_empty());
    assert_eq!(state.paper_size, PaperSize::Size58mm);
    state.elements.push(ReceiptElement::Separator);
    state.clear_receipt();
    assert!(state.elements.is_empty());
}

#[test]
fn switches_toggle() {
    let mut state = AppState::new(1);
    state.toggle_paper();
    state.toggle_cover();
    state.toggle_drawer();
    let status = state.device.printer_status;
    assert!(!status.paper_present && !status.cover_closed && status.drawer_open && status.online);
    assert_eq!(status.paper_label(), "Paper: OUT");
    assert_eq!(status.cover_label(), "Cover: Open");
    assert_eq!(status.drawer_label(), "Drawer: Open");
    state.toggle_paper();
    state.toggle_cover();
    state.toggle_drawer();
    let status = state.device.printer_status;
    assert_eq!(status, PrinterStatus::default());
    assert_eq!(status.paper_label(), "Paper: OK");
    assert_eq!(status.cover_label(), "Cover: Closed");
    assert_eq!(status.drawer_label(), "Drawer: Closed");
}

#[test]
fn log_can_be_cleared() {
    let mut state = AppState::new(1);
    let mut renderer = EscPosRenderer::new(false);
    state.receive(&mut renderer, "c", b"\x1b@");
    assert_eq!(state.device.command_log.len(), 1);
    state.clear_log();
    assert!(state.device.command_log.is_empty());
}

#[test]
fn partial_cuts() {
    assert!(is_partial_cut("PARTIAL CUT"));
    assert!(is_partial_cut("FEED & PARTIAL CUT"));
    assert!(!is_partial_cut("FULL CUT"));
    assert!(!is_partial_cut("PARTIA"));
}

#[test]
fn shades_of_text() {
    assert_eq!(text_shade(true, true, true, 0), Shade::White);
    assert_eq!(text_shade(false, true, false, 0), Shade::Black);
    assert_eq!(text_shade(false, false, true, 1), Shade::Black);
    assert_eq!(text_shade(false, false, false, 0), Shade::LightGray);
    assert_eq!(text_shade(false, false, false, 1), Shade::Gray);
    assert_eq!(text_shade(false, false, false, 2), Shade::DarkGray);
    assert_eq!(text_shade(false, false, false, 3), Shade::Black);
    assert_eq!((font_percent(0), font_percent(1), font_percent(2)), (100, 75, 65));
}

#[test]
fn symbols_are_aligned() {
    assert_eq!(effective_width(0, 576), 576);
    assert_eq!(effective_width(400, 576), 400);
    assert_eq!(symbol_offset_doubled(Alignment::Left, 0, 400, 576, 100), 0);
    assert_eq!(symbol_offset_doubled(Alignment::Center, 0, 0, 576, 101), 475);
    assert_eq!(symbol_offset_doubled(Alignment::Center, 0, 400, 576, 100), 476);
    assert_eq!(symbol_offset_doubled(Alignment::Right, 0, 400, 576, 100), 776);
    assert_eq!(symbol_offset_doubled(Alignment::Right, 7, 400, 576, 100), 14);
    assert_eq!(symbol_offset_doubled(Alignment::Right, 0, 0, 576, 600), -48);
}

#[test]
fn images_are_enlarged_as_far_as_they_fit() {
    assert_eq!(image_scale(301, 10, 576), ImageScale::One);
    assert_eq!(image_scale(10, 151, 576), ImageScale::One);
    assert_eq!(image_scale(192, 150, 576), ImageScale::Three);
    assert_eq!(image_scale(193, 150, 576), ImageScale::FillArea);
    assert_eq!(image_scale(600, 10, 384), ImageScale::FillArea);
    assert_eq!(image_scale(385, 200, 384), ImageScale::FillArea);
    assert_eq!(image_scale(384, 200, 384), ImageScale::One);
    assert_eq!(pulse_ms(25), 50);
    assert_eq!(pulse_ms(255), 510);
}
