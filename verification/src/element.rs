//! What a receipt consists of.

use vstd::prelude::*;

verus! {

#[derive(Debug, Clone, Copy, PartialEq, Eq, Structural)]
pub enum Alignment {
    Left,
    Center,
    Right,
}

#[derive(Debug, Clone, Copy, PartialEq, Eq, Structural)]
pub enum BarcodeType {
    UpcA,
    UpcE,
    Ean13,
    Ean8,
    Code39,
    Itf,
    Codabar,
    Code93,
    Code128,
}

/// Where the human readable text of a barcode stands.
#[derive(Debug, Clone, Copy, PartialEq, Eq, Structural)]
pub enum HriPosition {
    Hidden,
    Above,
    Below,
    Both,
}

#[derive(Debug, Clone, Copy, PartialEq, Eq, Structural)]
pub enum Barcode2DVariant {
    Pdf417,
    DataMatrix,
}

/// One printed element, in the order of printing.
#[derive(Debug, Clone)]
#[allow(inconsistent_fields)]
pub enum ReceiptElement {
    Text {
        content: String,
        bold: bool,
        underline: bool,
        double_width: bool,
        double_height: bool,
        inverted: bool,
        alignment: Alignment,
        density: u8,
        offset: u16,
        left_margin: u16,
        character_spacing: u8,
        double_strike: bool,
        font: u8,
        print_area_width: u16,
    },
    RasterImage {
        /// Width in dots.
        width: usize,
        height: usize,
        data: Vec<u8>,
        offset: u16,
        density: u8,
        alignment: Alignment,
        /// Bytes of data for each row of dots.
        bytes_per_line: usize,
        print_area_width: u16,
    },
    QrCode {
        data: String,
        size: usize,
        alignment: Alignment,
        offset: u16,
        print_area_width: u16,
    },
    Barcode {
        data: Vec<u8>,
        barcode_type: BarcodeType,
        height: u8,
        module_width: u8,
        hri_position: HriPosition,
        alignment: Alignment,
        offset: u16,
        print_area_width: u16,
    },
    Barcode2D {
        data: Vec<u8>,
        variant: Barcode2DVariant,
        module_size: u8,
        alignment: Alignment,
        offset: u16,
        print_area_width: u16,
    },
    PaperCut { cut_type: String },
    CashDrawer { pin: u8, on_time: u8, off_time: u8 },
    Separator,
    FormFeed,
}

/// A printed element, its strings and bytes as sequences.
#[verifier::ext_equal]
#[allow(inconsistent_fields)]
pub enum ElementView {
    Text {
        content: Seq<char>,
        bold: bool,
        underline: bool,
        double_width: bool,
        double_height: bool,
        inverted: bool,
        alignment: Alignment,
        density: u8,
        offset: u16,
        left_margin: u16,
        character_spacing: u8,
        double_strike: bool,
        font: u8,
        print_area_width: u16,
    },
    RasterImage {
        width: int,
        height: int,
        data: Seq<u8>,
        offset: u16,
        density: u8,
        alignment: Alignment,
        bytes_per_line: int,
        print_area_width: u16,
    },
    QrCode {
        data: Seq<char>,
        size: int,
        alignment: Alignment,
        offset: u16,
        print_area_width: u16,
    },
    Barcode {
        data: Seq<u8>,
        barcode_type: BarcodeType,
        height: u8,
        module_width: u8,
        hri_position: HriPosition,
        alignment: Alignment,
        offset: u16,
        print_area_width: u16,
    },
    Barcode2D {
        data: Seq<u8>,
        variant: Barcode2DVariant,
        module_size: u8,
        alignment: Alignment,
        offset: u16,
        print_area_width: u16,
    },
    PaperCut { cut_type: Seq<char> },
    CashDrawer { pin: u8, on_time: u8, off_time: u8 },
    Separator,
    FormFeed,
}

impl View for ReceiptElement {
    type V = ElementView;

    open spec fn view(&self) -> ElementView {
        match *self {
            ReceiptElement::Text {
                content,
                bold,
                underline,
                double_width,
                double_height,
                inverted,
                alignment,
                density,
                offset,
                left_margin,
                character_spacing,
                double_strike,
                font,
                print_area_width,
            } => ElementView::Text {
                content: content@,
                bold,
                underline,
                double_width,
                double_height,
                inverted,
                alignment,
                density,
                offset,
                left_margin,
                character_spacing,
                double_strike,
                font,
                print_area_width,
            },
            ReceiptElement::RasterImage {
                width,
                height,
                data,
                offset,
                density,
                alignment,
                bytes_per_line,
                print_area_width,
            } => ElementView::RasterImage {
                width: width as int,
                height: height as int,
                data: data@,
                offset,
                density,
                alignment,
                bytes_per_line: bytes_per_line as int,
                print_area_width,
            },
            ReceiptElement::QrCode { data, size, alignment, offset, print_area_width } =>
                ElementView::QrCode {
                data: data@,
                size: size as int,
                alignment,
                offset,
                print_area_width,
            },
            ReceiptElement::Barcode {
                data,
                barcode_type,
                height,
                module_width,
                hri_position,
                alignment,
                offset,
                print_area_width,
            } => ElementView::Barcode {
                data: data@,
                barcode_type,
                height,
                module_width,
                hri_position,
                alignment,
                offset,
                print_area_width,
            },
            ReceiptElement::Barcode2D {
                data,
                variant,
                module_size,
                alignment,
                offset,
                print_area_width,
            } => ElementView::Barcode2D {
                data: data@,
                variant,
                module_size,
                alignment,
                offset,
                print_area_width,
            },
            ReceiptElement::PaperCut { cut_type } => ElementView::PaperCut { cut_type: cut_type@ },
            ReceiptElement::CashDrawer { pin, on_time, off_time } => ElementView::CashDrawer {
                pin,
                on_time,
                off_time,
            },
            ReceiptElement::Separator => ElementView::Separator,
            ReceiptElement::FormFeed => ElementView::FormFeed,
        }
    }
}

/// The views of a list of elements.
pub open spec fn element_views(elements: Seq<ReceiptElement>) -> Seq<ElementView> {
    Seq::new(elements.len(), |k: int| elements[k]@)
}

pub broadcast proof fn element_views_push(elements: Seq<ReceiptElement>, e: ReceiptElement)
    ensures
        #[trigger] element_views(elements.push(e)) == element_views(elements).push(e@),
{
    assert(element_views(elements.push(e)) =~= element_views(elements).push(e@));
}

pub broadcast proof fn element_views_concat(a: Seq<ReceiptElement>, b: Seq<ReceiptElement>)
    ensures
        #[trigger] element_views(a + b) == element_views(a) + element_views(b),
{
    assert(element_views(a + b) =~= element_views(a) + element_views(b));
}

} // verus!
