//! Where things stand on the paper, and how dark they are.

use vstd::prelude::*;
use crate::element::Alignment;

verus! {

/// How dark text is drawn.
#[derive(Debug, Clone, Copy, PartialEq, Eq, Structural)]
pub enum Shade {
    White,
    LightGray,
    Gray,
    DarkGray,
    Black,
}

/// The shade of text: white on black where it is inverted, black where it is
/// bold or struck twice, and otherwise by density, black from three on.
pub open spec fn shade_of(inverted: bool, bold: bool, double_strike: bool, density: u8) -> Shade {
    if inverted {
        Shade::White
    } else if bold || double_strike || density > 2 {
        Shade::Black
    } else if density == 0 {
        Shade::LightGray
    } else if density == 1 {
        Shade::Gray
    } else {
        Shade::DarkGray
    }
}

pub fn text_shade(inverted: bool, bold: bool, double_strike: bool, density: u8) -> (r: Shade)
    ensures
        r == shade_of(inverted, bold, double_strike, density),
{
    if inverted {
        Shade::White
    } else if bold || double_strike {
        Shade::Black
    } else {
        match density {
            0 => Shade::LightGray,
            1 => Shade::Gray,
            2 => Shade::DarkGray,
            _ => Shade::Black,
        }
    }
}

/// Size of a font in percent of font A.
pub open spec fn percent_of(font: u8) -> int {
    if font == 1 {
        75
    } else if font == 2 {
        65
    } else {
        100
    }
}

/// Milliseconds of a drawer pulse, which is given in steps of two.
pub open spec fn pulse_of(time: u8) -> int {
    time + time
}

/// Size of a font in percent of font A.
pub fn font_percent(font: u8) -> (r: u8)
    ensures
        r == percent_of(font),
        r == (if font == 1 {
            75u8
        } else if font == 2 {
            65u8
        } else {
            100u8
        }),
{
    match font {
        1 => 75,
        2 => 65,
        _ => 100,
    }
}

/// Width of the print area in dots: zero stands for the full width.
pub open spec fn area_width(print_area_width: u16, printer_width: int) -> int {
    if print_area_width > 0 {
        print_area_width as int
    } else {
        printer_width
    }
}

pub fn effective_width(print_area_width: u16, printer_width: usize) -> (r: usize)
    ensures
        r == area_width(print_area_width, printer_width as int),
{
    if print_area_width > 0 {
        print_area_width as usize
    } else {
        printer_width
    }
}

/// Twice the distance of the print area from the left edge of the paper. The
/// area is centred, and may be wider than the paper.
pub open spec fn double_area_offset(print_area_width: u16, printer_width: int) -> int {
    printer_width - area_width(print_area_width, printer_width)
}

/// Twice the distance of a symbol from the left edge of the paper. A horizontal
/// offset overrides the alignment; left is the edge of the paper, centre and
/// right are those of the print area.
pub open spec fn double_symbol_offset(
    alignment: Alignment,
    offset: u16,
    print_area_width: u16,
    printer_width: int,
    symbol_width: int,
) -> int {
    let area = area_width(print_area_width, printer_width);
    let left = double_area_offset(print_area_width, printer_width);
    if offset > 0 {
        2 * offset
    } else {
        match alignment {
            Alignment::Left => 0,
            Alignment::Center => left + area - symbol_width,
            Alignment::Right => left + 2 * (area - symbol_width),
        }
    }
}

/// Twice the distance of a symbol from the left edge of the paper.
pub fn symbol_offset_doubled(
    alignment: Alignment,
    offset: u16,
    print_area_width: u16,
    printer_width: u32,
    symbol_width: u32,
) -> (r: i64)
    ensures
        r == double_symbol_offset(
            alignment,
            offset,
            print_area_width,
            printer_width as int,
            symbol_width as int,
        ),
{
    let area: i64 = if print_area_width > 0 {
        print_area_width as i64
    } else {
        printer_width as i64
    };
    let left: i64 = printer_width as i64 - area;
    if offset > 0 {
        2 * (offset as i64)
    } else {
        match alignment {
            Alignment::Left => 0,
            Alignment::Center => left + area - symbol_width as i64,
            Alignment::Right => left + 2 * (area - symbol_width as i64),
        }
    }
}

/// Images above these sizes are not enlarged.
pub const LARGE_IMAGE_WIDTH: usize = 300;
pub const LARGE_IMAGE_HEIGHT: usize = 150;

/// How large an image is shown.
#[derive(Debug, Clone, Copy, PartialEq, Eq, Structural)]
pub enum ImageScale {
    /// Dot for dot.
    One,
    /// Three times as large.
    Three,
    /// As wide as the print area.
    FillArea,
}

/// Large images are shown dot for dot, and small ones three times as large, as
/// far as the print area has room for them.
pub open spec fn scale_of(width: int, height: int, area: int) -> ImageScale {
    if width > LARGE_IMAGE_WIDTH || height > LARGE_IMAGE_HEIGHT {
        if width <= area {
            ImageScale::One
        } else {
            ImageScale::FillArea
        }
    } else if 3 * width <= area {
        ImageScale::Three
    } else {
        ImageScale::FillArea
    }
}

pub fn image_scale(width: usize, height: usize, area: usize) -> (r: ImageScale)
    ensures
        r == scale_of(width as int, height as int, area as int),
{
    if width > LARGE_IMAGE_WIDTH || height > LARGE_IMAGE_HEIGHT {
        if width <= area {
            ImageScale::One
        } else {
            ImageScale::FillArea
        }
    } else if 3 * width <= area {
        ImageScale::Three
    } else {
        ImageScale::FillArea
    }
}

/// How wide an image is shown.
pub open spec fn shown_width(width: int, height: int, area: int) -> int {
    match scale_of(width, height, area) {
        ImageScale::One => width,
        ImageScale::Three => 3 * width,
        ImageScale::FillArea => area,
    }
}

/// No image is shown wider than the print area.
pub proof fn image_fits_area(width: int, height: int, area: int)
    ensures
        shown_width(width, height, area) <= area,
{
}

/// A centred symbol leaves the same room on both sides of it in the print area,
/// and a symbol to the right ends where the print area ends.
pub proof fn symbol_is_aligned(print_area_width: u16, printer_width: int, symbol_width: int)
    ensures
        ({
            let start = double_area_offset(print_area_width, printer_width);
            let end = start + 2 * area_width(print_area_width, printer_width);
            let center = double_symbol_offset(
                Alignment::Center,
                0,
                print_area_width,
                printer_width,
                symbol_width,
            );
            let right = double_symbol_offset(
                Alignment::Right,
                0,
                print_area_width,
                printer_width,
                symbol_width,
            );
            &&& center - start == end - (center + 2 * symbol_width)
            &&& right + 2 * symbol_width == end
        }),
{
}

/// Milliseconds of a drawer pulse, which is given in steps of two.
pub fn pulse_ms(time: u8) -> (r: u32)
    ensures
        r == pulse_of(time),
        r == 2 * time,
{
    time as u32 * 2
}

} // verus!
