//! What each setting does to the formatting and to nothing else.
//!
//! In every law `rest` is whatever is sent behind the command: it is read on from
//! the byte behind the last parameter.

use vstd::prelude::*;
use crate::codepage::TextEncoding;
use crate::codes::clamp_u8;
use crate::element::{Alignment, HriPosition};
use crate::framing::{Span, span};
use crate::laws::logged;
use crate::model::{
    Command, Machine, RendererView, alignment_of, command, feed, fresh_renderer, hri_of,
};
use crate::state::{
    DeviceView, PrinterState, Setting, SymbolSetting, SymbolSettings, default_state,
    default_symbols,
};
use crate::stream::{
    lemma_effect, lemma_esc_stream, lemma_format, lemma_gs_stream, lemma_plain_effect,
    lemma_symbol, nothing_sent_is_nothing,
};

verus! {

/// `ESC E n`: one switches bold on, everything else switches it off.
pub proof fn bold_is_set(m: Machine, n: u8, rest: Seq<u8>)
    requires
        m.renderer.pending.len() == 0,
        !m.renderer.in_command,
    ensures
        feed(m, seq![0x1Bu8, 0x45u8, n] + rest) == feed(
            logged(
                (Machine {
                    renderer: RendererView {
                        state: PrinterState { bold: n == 1, ..m.renderer.state },
                        ..m.renderer
                    },
                    ..m
                }),
                0x1B,
                0x45,
            ),
            rest,
        ),
{
    let s = seq![0x1Bu8, 0x45u8, n];
    let t = s + rest;
    assert(span(t) == Span::Ends(3) && command(t) == Command::Format(Setting::Bold(n == 1))) by {
        lemma_esc_stream();
    }
    lemma_format(m, s, rest, Setting::Bold(n == 1));
}

/// `ESC - n`: one and two switch underline on, everything else switches it off.
pub proof fn underline_is_set(m: Machine, n: u8, rest: Seq<u8>)
    requires
        m.renderer.pending.len() == 0,
        !m.renderer.in_command,
    ensures
        feed(m, seq![0x1Bu8, 0x2Du8, n] + rest) == feed(
            logged(
                (Machine {
                    renderer: RendererView {
                        state: PrinterState { underline: n == 1 || n == 2, ..m.renderer.state },
                        ..m.renderer
                    },
                    ..m
                }),
                0x1B,
                0x2D,
            ),
            rest,
        ),
{
    let s = seq![0x1Bu8, 0x2Du8, n];
    let t = s + rest;
    assert(span(t) == Span::Ends(3) && command(t) == Command::Format(Setting::Underline(n == 1 || n == 2))) by {
        lemma_esc_stream();
    }
    lemma_format(m, s, rest, Setting::Underline(n == 1 || n == 2));
}

/// `ESC a n`: one is the centre, two is right, everything else is left.
pub proof fn alignment_is_set(m: Machine, n: u8, rest: Seq<u8>)
    requires
        m.renderer.pending.len() == 0,
        !m.renderer.in_command,
    ensures
        feed(m, seq![0x1Bu8, 0x61u8, n] + rest) == feed(
            logged(
                (Machine {
                    renderer: RendererView {
                        state: PrinterState { alignment: if n == 1 {
                            Alignment::Center
                        } else if n == 2 {
                            Alignment::Right
                        } else {
                            Alignment::Left
                        }, ..m.renderer.state },
                        ..m.renderer
                    },
                    ..m
                }),
                0x1B,
                0x61,
            ),
            rest,
        ),
{
    let s = seq![0x1Bu8, 0x61u8, n];
    let t = s + rest;
    assert(span(t) == Span::Ends(3) && command(t) == Command::Format(Setting::Align(alignment_of(n)))) by {
        lemma_esc_stream();
    }
    lemma_format(m, s, rest, Setting::Align(alignment_of(n)));
}

/// `ESC ! n`: bit 3 is bold, bit 4 double height, bit 5 double width and bit 7
/// underline.
pub proof fn print_mode_is_set(m: Machine, n: u8, rest: Seq<u8>)
    requires
        m.renderer.pending.len() == 0,
        !m.renderer.in_command,
    ensures
        feed(m, seq![0x1Bu8, 0x21u8, n] + rest) == feed(
            logged(
                (Machine {
                    renderer: RendererView {
                        state: PrinterState { bold: (n / 8) % 2 == 1,
                        double_height: (n / 16) % 2 == 1,
                        double_width: (n / 32) % 2 == 1,
                        underline: (n / 128) % 2 == 1, ..m.renderer.state },
                        ..m.renderer
                    },
                    ..m
                }),
                0x1B,
                0x21,
            ),
            rest,
        ),
{
    let s = seq![0x1Bu8, 0x21u8, n];
    let t = s + rest;
    assert(span(t) == Span::Ends(3) && command(t) == Command::Format(Setting::PrintMode(n))) by {
        lemma_esc_stream();
    }
    assert((n & 0x08 != 0) == ((n / 8) % 2 == 1) && (n & 0x10 != 0) == ((n / 16) % 2 == 1) && (n
        & 0x20 != 0) == ((n / 32) % 2 == 1) && (n & 0x80 != 0) == ((n / 128) % 2 == 1))
        by (bit_vector);
    lemma_format(m, s, rest, Setting::PrintMode(n));
}

/// `ESC ~ n` sets the density, eight at most.
pub proof fn density_is_set(m: Machine, n: u8, rest: Seq<u8>)
    requires
        m.renderer.pending.len() == 0,
        !m.renderer.in_command,
    ensures
        feed(m, seq![0x1Bu8, 0x7Eu8, n] + rest) == feed(
            logged(
                (Machine {
                    renderer: RendererView {
                        state: PrinterState { print_density: if n < 8 { n } else { 8 }, ..m.renderer.state },
                        ..m.renderer
                    },
                    ..m
                }),
                0x1B,
                0x7E,
            ),
            rest,
        ),
{
    let s = seq![0x1Bu8, 0x7Eu8, n];
    let t = s + rest;
    assert(span(t) == Span::Ends(3) && command(t) == Command::Format(Setting::Density(clamp_u8(n, 0, 8)))) by {
        lemma_esc_stream();
    }
    lemma_format(m, s, rest, Setting::Density(clamp_u8(n, 0, 8)));
}

/// `ESC SP n` sets the character spacing.
pub proof fn character_spacing_is_set(m: Machine, n: u8, rest: Seq<u8>)
    requires
        m.renderer.pending.len() == 0,
        !m.renderer.in_command,
    ensures
        feed(m, seq![0x1Bu8, 0x20u8, n] + rest) == feed(
            logged(
                (Machine {
                    renderer: RendererView {
                        state: PrinterState { character_spacing: n, ..m.renderer.state },
                        ..m.renderer
                    },
                    ..m
                }),
                0x1B,
                0x20,
            ),
            rest,
        ),
{
    let s = seq![0x1Bu8, 0x20u8, n];
    let t = s + rest;
    assert(span(t) == Span::Ends(3) && command(t) == Command::Format(Setting::CharSpacing(n))) by {
        lemma_esc_stream();
    }
    lemma_format(m, s, rest, Setting::CharSpacing(n));
}

/// `ESC t n` selects a code page. Behind 20, 21 and 255 other bytes than those of an
/// OEM page are Shift-JIS, behind all others Windows-1252.
pub proof fn code_page_is_set(m: Machine, n: u8, rest: Seq<u8>)
    requires
        m.renderer.pending.len() == 0,
        !m.renderer.in_command,
    ensures
        feed(m, seq![0x1Bu8, 0x74u8, n] + rest) == feed(
            logged(
                (Machine {
                    renderer: RendererView {
                        state: PrinterState { code_page: n,
                        encoding: if n == 20 || n == 21 || n == 255 {
                            TextEncoding::ShiftJis
                        } else {
                            TextEncoding::Windows1252
                        }, ..m.renderer.state },
                        ..m.renderer
                    },
                    ..m
                }),
                0x1B,
                0x74,
            ),
            rest,
        ),
{
    let s = seq![0x1Bu8, 0x74u8, n];
    let t = s + rest;
    assert(span(t) == Span::Ends(3) && command(t) == Command::Format(Setting::CodePage(n))) by {
        lemma_esc_stream();
    }
    lemma_format(m, s, rest, Setting::CodePage(n));
}

/// `ESC M n` selects the font.
pub proof fn font_is_set(m: Machine, n: u8, rest: Seq<u8>)
    requires
        m.renderer.pending.len() == 0,
        !m.renderer.in_command,
    ensures
        feed(m, seq![0x1Bu8, 0x4Du8, n] + rest) == feed(
            logged(
                (Machine {
                    renderer: RendererView {
                        state: PrinterState { font: n, ..m.renderer.state },
                        ..m.renderer
                    },
                    ..m
                }),
                0x1B,
                0x4D,
            ),
            rest,
        ),
{
    let s = seq![0x1Bu8, 0x4Du8, n];
    let t = s + rest;
    assert(span(t) == Span::Ends(3) && command(t) == Command::Format(Setting::Font(n))) by {
        lemma_esc_stream();
    }
    lemma_format(m, s, rest, Setting::Font(n));
}

/// `ESC 3 n` sets the line spacing.
pub proof fn line_spacing_is_set(m: Machine, n: u8, rest: Seq<u8>)
    requires
        m.renderer.pending.len() == 0,
        !m.renderer.in_command,
    ensures
        feed(m, seq![0x1Bu8, 0x33u8, n] + rest) == feed(
            logged(
                (Machine {
                    renderer: RendererView {
                        state: PrinterState { line_spacing: n, ..m.renderer.state },
                        ..m.renderer
                    },
                    ..m
                }),
                0x1B,
                0x33,
            ),
            rest,
        ),
{
    let s = seq![0x1Bu8, 0x33u8, n];
    let t = s + rest;
    assert(span(t) == Span::Ends(3) && command(t) == Command::Format(Setting::LineSpacing(n))) by {
        lemma_esc_stream();
    }
    lemma_format(m, s, rest, Setting::LineSpacing(n));
}

/// `ESC 2` sets the line spacing back to 30 dots, and has no parameter.
pub proof fn line_spacing_is_reset(m: Machine, rest: Seq<u8>)
    requires
        m.renderer.pending.len() == 0,
        !m.renderer.in_command,
    ensures
        feed(m, seq![0x1Bu8, 0x32u8] + rest) == feed(
            logged(
                (Machine {
                    renderer: RendererView {
                        state: PrinterState { line_spacing: 30, ..m.renderer.state },
                        ..m.renderer
                    },
                    ..m
                }),
                0x1B,
                0x32,
            ),
            rest,
        ),
{
    let s = seq![0x1Bu8, 0x32u8];
    let t = s + rest;
    assert(span(t) == Span::Ends(2) && command(t) == Command::Format(Setting::LineSpacing(30))) by {
        lemma_esc_stream();
    }
    lemma_format(m, s, rest, Setting::LineSpacing(30));
}

/// `ESC G n`: zero switches double strike off, everything else switches it on.
pub proof fn double_strike_is_set(m: Machine, n: u8, rest: Seq<u8>)
    requires
        m.renderer.pending.len() == 0,
        !m.renderer.in_command,
    ensures
        feed(m, seq![0x1Bu8, 0x47u8, n] + rest) == feed(
            logged(
                (Machine {
                    renderer: RendererView {
                        state: PrinterState { double_strike: n != 0, ..m.renderer.state },
                        ..m.renderer
                    },
                    ..m
                }),
                0x1B,
                0x47,
            ),
            rest,
        ),
{
    let s = seq![0x1Bu8, 0x47u8, n];
    let t = s + rest;
    assert(span(t) == Span::Ends(3) && command(t) == Command::Format(Setting::DoubleStrike(n != 0))) by {
        lemma_esc_stream();
    }
    lemma_format(m, s, rest, Setting::DoubleStrike(n != 0));
}

/// `ESC $ nL nH` sets the horizontal offset, low byte first.
pub proof fn position_is_set(m: Machine, lo: u8, hi: u8, rest: Seq<u8>)
    requires
        m.renderer.pending.len() == 0,
        !m.renderer.in_command,
    ensures
        feed(m, seq![0x1Bu8, 0x24u8, lo, hi] + rest) == feed(
            logged(
                (Machine {
                    renderer: RendererView {
                        state: PrinterState { horizontal_offset: (lo + 256 * hi) as u16, ..m.renderer.state },
                        ..m.renderer
                    },
                    ..m
                }),
                0x1B,
                0x24,
            ),
            rest,
        ),
{
    let s = seq![0x1Bu8, 0x24u8, lo, hi];
    let t = s + rest;
    assert(span(t) == Span::Ends(4) && command(t) == Command::Format(Setting::Position((lo + 256 * hi) as u16))) by {
        lemma_esc_stream();
    }
    lemma_format(m, s, rest, Setting::Position((lo + 256 * hi) as u16));
}

/// `ESC \ nL nH` moves the horizontal offset by a number in two's complement: by
/// that much to the right or to the left, as far as there is room.
pub proof fn position_is_moved(m: Machine, lo: u8, hi: u8, rest: Seq<u8>)
    requires
        m.renderer.pending.len() == 0,
        !m.renderer.in_command,
    ensures
        ({
            let by = if hi < 128 {
                lo + 256 * hi
            } else {
                lo + 256 * hi - 65536
            };
            let to = m.renderer.state.horizontal_offset + by;
            feed(m, seq![0x1Bu8, 0x5Cu8, lo, hi] + rest) == feed(
                logged(
                    (Machine {
                        renderer: RendererView {
                            state: PrinterState {
                                horizontal_offset: if to < 0 {
                                    0
                                } else if to > 65535 {
                                    65535
                                } else {
                                    to as u16
                                },
                                ..m.renderer.state
                            },
                            ..m.renderer
                        },
                        ..m
                    }),
                    0x1B,
                    0x5C,
                ),
                rest,
            )
        }),
{
    let s = seq![0x1Bu8, 0x5Cu8, lo, hi];
    let t = s + rest;
    assert(span(t) == Span::Ends(4) && command(t) == Command::Format(
        Setting::Move((lo + 256 * hi) as u16),
    )) by {
        lemma_esc_stream();
    }
    lemma_format(m, s, rest, Setting::Move((lo + 256 * hi) as u16));
}

/// `GS L nL nH` sets the left margin, low byte first.
pub proof fn left_margin_is_set(m: Machine, lo: u8, hi: u8, rest: Seq<u8>)
    requires
        m.renderer.pending.len() == 0,
        !m.renderer.in_command,
    ensures
        feed(m, seq![0x1Du8, 0x4Cu8, lo, hi] + rest) == feed(
            logged(
                (Machine {
                    renderer: RendererView {
                        state: PrinterState { left_margin: (lo + 256 * hi) as u16, ..m.renderer.state },
                        ..m.renderer
                    },
                    ..m
                }),
                0x1D,
                0x4C,
            ),
            rest,
        ),
{
    let s = seq![0x1Du8, 0x4Cu8, lo, hi];
    let t = s + rest;
    assert(span(t) == Span::Ends(4) && command(t) == Command::Format(Setting::LeftMargin((lo + 256 * hi) as u16))) by {
        lemma_gs_stream();
    }
    lemma_format(m, s, rest, Setting::LeftMargin((lo + 256 * hi) as u16));
}

/// `GS W nL nH` sets the width of the print area, low byte first.
pub proof fn area_width_is_set(m: Machine, lo: u8, hi: u8, rest: Seq<u8>)
    requires
        m.renderer.pending.len() == 0,
        !m.renderer.in_command,
    ensures
        feed(m, seq![0x1Du8, 0x57u8, lo, hi] + rest) == feed(
            logged(
                (Machine {
                    renderer: RendererView {
                        state: PrinterState { print_area_width: (lo + 256 * hi) as u16, ..m.renderer.state },
                        ..m.renderer
                    },
                    ..m
                }),
                0x1D,
                0x57,
            ),
            rest,
        ),
{
    let s = seq![0x1Du8, 0x57u8, lo, hi];
    let t = s + rest;
    assert(span(t) == Span::Ends(4) && command(t) == Command::Format(Setting::AreaWidth((lo + 256 * hi) as u16))) by {
        lemma_gs_stream();
    }
    lemma_format(m, s, rest, Setting::AreaWidth((lo + 256 * hi) as u16));
}

/// `GS ! n`: characters are wide where one of the bits 0 to 2 is set, and high
/// where one of the bits 4 to 6 is.
pub proof fn character_size_is_set(m: Machine, n: u8, rest: Seq<u8>)
    requires
        m.renderer.pending.len() == 0,
        !m.renderer.in_command,
    ensures
        feed(m, seq![0x1Du8, 0x21u8, n] + rest) == feed(
            logged(
                (Machine {
                    renderer: RendererView {
                        state: PrinterState { double_width: n & 0x07 != 0,
                        double_height: n & 0x70 != 0, ..m.renderer.state },
                        ..m.renderer
                    },
                    ..m
                }),
                0x1D,
                0x21,
            ),
            rest,
        ),
{
    let s = seq![0x1Du8, 0x21u8, n];
    let t = s + rest;
    assert(span(t) == Span::Ends(3) && command(t) == Command::Format(Setting::CharSize(n))) by {
        lemma_gs_stream();
    }
    assert((n & 0x07 != 0) == (n % 8 > 0) && (n & 0x70 != 0) == ((n / 16) % 8 > 0)) by (bit_vector);
    lemma_format(m, s, rest, Setting::CharSize(n));
}

/// `GS B n`: one switches white on black on, everything else switches it off.
pub proof fn inversion_is_set(m: Machine, n: u8, rest: Seq<u8>)
    requires
        m.renderer.pending.len() == 0,
        !m.renderer.in_command,
    ensures
        feed(m, seq![0x1Du8, 0x42u8, n] + rest) == feed(
            logged(
                (Machine {
                    renderer: RendererView {
                        state: PrinterState { inverted: n == 1, ..m.renderer.state },
                        ..m.renderer
                    },
                    ..m
                }),
                0x1D,
                0x42,
            ),
            rest,
        ),
{
    let s = seq![0x1Du8, 0x42u8, n];
    let t = s + rest;
    assert(span(t) == Span::Ends(3) && command(t) == Command::Format(Setting::Inverted(n == 1))) by {
        lemma_gs_stream();
    }
    lemma_format(m, s, rest, Setting::Inverted(n == 1));
}

/// `GS H n`: the text of a barcode is above for one, below for two, on both sides
/// for three, and hidden for everything else.
pub proof fn hri_position_is_set(m: Machine, n: u8, rest: Seq<u8>)
    requires
        m.renderer.pending.len() == 0,
        !m.renderer.in_command,
    ensures
        feed(m, seq![0x1Du8, 0x48u8, n] + rest) == feed(
            logged(
                (Machine {
                    renderer: RendererView {
                        symbols: SymbolSettings { barcode_hri_position: if n == 1 {
                            HriPosition::Above
                        } else if n == 2 {
                            HriPosition::Below
                        } else if n == 3 {
                            HriPosition::Both
                        } else {
                            HriPosition::Hidden
                        }, ..m.renderer.symbols },
                        ..m.renderer
                    },
                    ..m
                }),
                0x1D,
                0x48,
            ),
            rest,
        ),
{
    let s = seq![0x1Du8, 0x48u8, n];
    let t = s + rest;
    assert(span(t) == Span::Ends(3) && command(t) == Command::Symbol(SymbolSetting::Hri(hri_of(n)))) by {
        lemma_gs_stream();
    }
    lemma_symbol(m, s, rest, SymbolSetting::Hri(hri_of(n)));
}

/// `GS h n` sets the height of barcodes, one dot at least.
pub proof fn barcode_height_is_set(m: Machine, n: u8, rest: Seq<u8>)
    requires
        m.renderer.pending.len() == 0,
        !m.renderer.in_command,
    ensures
        feed(m, seq![0x1Du8, 0x68u8, n] + rest) == feed(
            logged(
                (Machine {
                    renderer: RendererView {
                        symbols: SymbolSettings { barcode_height: if n == 0 { 1 } else { n }, ..m.renderer.symbols },
                        ..m.renderer
                    },
                    ..m
                }),
                0x1D,
                0x68,
            ),
            rest,
        ),
{
    let s = seq![0x1Du8, 0x68u8, n];
    let t = s + rest;
    assert(span(t) == Span::Ends(3) && command(t) == Command::Symbol(SymbolSetting::BarcodeHeight(clamp_u8(n, 1, 255)))) by {
        lemma_gs_stream();
    }
    lemma_symbol(m, s, rest, SymbolSetting::BarcodeHeight(clamp_u8(n, 1, 255)));
}

/// `GS w n` sets the width of the bars, one to six dots.
pub proof fn module_width_is_set(m: Machine, n: u8, rest: Seq<u8>)
    requires
        m.renderer.pending.len() == 0,
        !m.renderer.in_command,
    ensures
        feed(m, seq![0x1Du8, 0x77u8, n] + rest) == feed(
            logged(
                (Machine {
                    renderer: RendererView {
                        symbols: SymbolSettings { barcode_module_width: if n == 0 {
                            1
                        } else if n > 6 {
                            6
                        } else {
                            n
                        }, ..m.renderer.symbols },
                        ..m.renderer
                    },
                    ..m
                }),
                0x1D,
                0x77,
            ),
            rest,
        ),
{
    let s = seq![0x1Du8, 0x77u8, n];
    let t = s + rest;
    assert(span(t) == Span::Ends(3) && command(t) == Command::Symbol(SymbolSetting::BarcodeModuleWidth(clamp_u8(n, 1, 6)))) by {
        lemma_gs_stream();
    }
    lemma_symbol(m, s, rest, SymbolSetting::BarcodeModuleWidth(clamp_u8(n, 1, 6)));
}

/// `GS ( k` 48 65: columns of a PDF417 symbol.
pub proof fn pdf417_columns_are_set(m: Machine, lo: u8, hi: u8, n: u8, rest: Seq<u8>)
    requires
        m.renderer.pending.len() == 0,
        !m.renderer.in_command,
    ensures
        feed(m, seq![0x1Du8, 0x28u8, 0x6Bu8, lo, hi, 48, 65, n] + rest) == feed(
            logged(
                (Machine {
                    renderer: RendererView {
                        symbols: SymbolSettings { pdf417_columns: n, ..m.renderer.symbols },
                        ..m.renderer
                    },
                    ..m
                }),
                0x1D,
                0x28,
            ),
            rest,
        ),
{
    let s = seq![0x1Du8, 0x28u8, 0x6Bu8, lo, hi, 48, 65, n];
    let t = s + rest;
    assert(span(t) == Span::Ends(8) && command(t) == Command::Symbol(
        SymbolSetting::Parameter { family: 48, function: 65, value: n },
    )) by {
        lemma_gs_stream();
    }
    lemma_symbol(m, s, rest, SymbolSetting::Parameter { family: 48, function: 65, value: n });
}

/// `GS ( k` 48 66: rows of a PDF417 symbol.
pub proof fn pdf417_rows_are_set(m: Machine, lo: u8, hi: u8, n: u8, rest: Seq<u8>)
    requires
        m.renderer.pending.len() == 0,
        !m.renderer.in_command,
    ensures
        feed(m, seq![0x1Du8, 0x28u8, 0x6Bu8, lo, hi, 48, 66, n] + rest) == feed(
            logged(
                (Machine {
                    renderer: RendererView {
                        symbols: SymbolSettings { pdf417_rows: n, ..m.renderer.symbols },
                        ..m.renderer
                    },
                    ..m
                }),
                0x1D,
                0x28,
            ),
            rest,
        ),
{
    let s = seq![0x1Du8, 0x28u8, 0x6Bu8, lo, hi, 48, 66, n];
    let t = s + rest;
    assert(span(t) == Span::Ends(8) && command(t) == Command::Symbol(
        SymbolSetting::Parameter { family: 48, function: 66, value: n },
    )) by {
        lemma_gs_stream();
    }
    lemma_symbol(m, s, rest, SymbolSetting::Parameter { family: 48, function: 66, value: n });
}

/// `GS ( k` 48 67: module width of a PDF417 symbol, one to eight dots.
pub proof fn pdf417_module_width_is_set(m: Machine, lo: u8, hi: u8, n: u8, rest: Seq<u8>)
    requires
        m.renderer.pending.len() == 0,
        !m.renderer.in_command,
    ensures
        feed(m, seq![0x1Du8, 0x28u8, 0x6Bu8, lo, hi, 48, 67, n] + rest) == feed(
            logged(
                (Machine {
                    renderer: RendererView {
                        symbols: SymbolSettings { pdf417_module_width: if n == 0 {
                            1
                        } else if n > 8 {
                            8
                        } else {
                            n
                        }, ..m.renderer.symbols },
                        ..m.renderer
                    },
                    ..m
                }),
                0x1D,
                0x28,
            ),
            rest,
        ),
{
    let s = seq![0x1Du8, 0x28u8, 0x6Bu8, lo, hi, 48, 67, n];
    let t = s + rest;
    assert(span(t) == Span::Ends(8) && command(t) == Command::Symbol(
        SymbolSetting::Parameter { family: 48, function: 67, value: n },
    )) by {
        lemma_gs_stream();
    }
    lemma_symbol(m, s, rest, SymbolSetting::Parameter { family: 48, function: 67, value: n });
}

/// `GS ( k` 48 68: the row height of a PDF417 symbol is taken and not used.
pub proof fn pdf417_row_height_is_taken(m: Machine, lo: u8, hi: u8, n: u8, rest: Seq<u8>)
    requires
        m.renderer.pending.len() == 0,
        !m.renderer.in_command,
    ensures
        feed(m, seq![0x1Du8, 0x28u8, 0x6Bu8, lo, hi, 48, 68, n] + rest) == feed(
            logged(
                m,
                0x1D,
                0x28,
            ),
            rest,
        ),
{
    let s = seq![0x1Du8, 0x28u8, 0x6Bu8, lo, hi, 48, 68, n];
    let t = s + rest;
    assert(span(t) == Span::Ends(8) && command(t) == Command::Symbol(
        SymbolSetting::Parameter { family: 48, function: 68, value: n },
    )) by {
        lemma_gs_stream();
    }
    lemma_symbol(m, s, rest, SymbolSetting::Parameter { family: 48, function: 68, value: n });
}

/// `GS ( k` 48 69: error correction of a PDF417 symbol.
pub proof fn pdf417_error_correction_is_set(m: Machine, lo: u8, hi: u8, n: u8, rest: Seq<u8>)
    requires
        m.renderer.pending.len() == 0,
        !m.renderer.in_command,
    ensures
        feed(m, seq![0x1Du8, 0x28u8, 0x6Bu8, lo, hi, 48, 69, n] + rest) == feed(
            logged(
                (Machine {
                    renderer: RendererView {
                        symbols: SymbolSettings { pdf417_error_correction: n, ..m.renderer.symbols },
                        ..m.renderer
                    },
                    ..m
                }),
                0x1D,
                0x28,
            ),
            rest,
        ),
{
    let s = seq![0x1Du8, 0x28u8, 0x6Bu8, lo, hi, 48, 69, n];
    let t = s + rest;
    assert(span(t) == Span::Ends(8) && command(t) == Command::Symbol(
        SymbolSetting::Parameter { family: 48, function: 69, value: n },
    )) by {
        lemma_gs_stream();
    }
    lemma_symbol(m, s, rest, SymbolSetting::Parameter { family: 48, function: 69, value: n });
}

/// `GS ( k` 48 70: one truncates a PDF417 symbol.
pub proof fn pdf417_truncation_is_set(m: Machine, lo: u8, hi: u8, n: u8, rest: Seq<u8>)
    requires
        m.renderer.pending.len() == 0,
        !m.renderer.in_command,
    ensures
        feed(m, seq![0x1Du8, 0x28u8, 0x6Bu8, lo, hi, 48, 70, n] + rest) == feed(
            logged(
                (Machine {
                    renderer: RendererView {
                        symbols: SymbolSettings { pdf417_truncated: n == 1, ..m.renderer.symbols },
                        ..m.renderer
                    },
                    ..m
                }),
                0x1D,
                0x28,
            ),
            rest,
        ),
{
    let s = seq![0x1Du8, 0x28u8, 0x6Bu8, lo, hi, 48, 70, n];
    let t = s + rest;
    assert(span(t) == Span::Ends(8) && command(t) == Command::Symbol(
        SymbolSetting::Parameter { family: 48, function: 70, value: n },
    )) by {
        lemma_gs_stream();
    }
    lemma_symbol(m, s, rest, SymbolSetting::Parameter { family: 48, function: 70, value: n });
}

/// `GS ( k` 49 67: module size of a QR code.
pub proof fn qr_size_is_set(m: Machine, lo: u8, hi: u8, n: u8, rest: Seq<u8>)
    requires
        m.renderer.pending.len() == 0,
        !m.renderer.in_command,
    ensures
        feed(m, seq![0x1Du8, 0x28u8, 0x6Bu8, lo, hi, 49, 67, n] + rest) == feed(
            logged(
                (Machine {
                    renderer: RendererView {
                        symbols: SymbolSettings { qr_size: n, ..m.renderer.symbols },
                        ..m.renderer
                    },
                    ..m
                }),
                0x1D,
                0x28,
            ),
            rest,
        ),
{
    let s = seq![0x1Du8, 0x28u8, 0x6Bu8, lo, hi, 49, 67, n];
    let t = s + rest;
    assert(span(t) == Span::Ends(8) && command(t) == Command::Symbol(
        SymbolSetting::Parameter { family: 49, function: 67, value: n },
    )) by {
        lemma_gs_stream();
    }
    lemma_symbol(m, s, rest, SymbolSetting::Parameter { family: 49, function: 67, value: n });
}

/// `GS ( k` 49 69: error correction of a QR code.
pub proof fn qr_error_correction_is_set(m: Machine, lo: u8, hi: u8, n: u8, rest: Seq<u8>)
    requires
        m.renderer.pending.len() == 0,
        !m.renderer.in_command,
    ensures
        feed(m, seq![0x1Du8, 0x28u8, 0x6Bu8, lo, hi, 49, 69, n] + rest) == feed(
            logged(
                (Machine {
                    renderer: RendererView {
                        symbols: SymbolSettings { qr_error_correction: n, ..m.renderer.symbols },
                        ..m.renderer
                    },
                    ..m
                }),
                0x1D,
                0x28,
            ),
            rest,
        ),
{
    let s = seq![0x1Du8, 0x28u8, 0x6Bu8, lo, hi, 49, 69, n];
    let t = s + rest;
    assert(span(t) == Span::Ends(8) && command(t) == Command::Symbol(
        SymbolSetting::Parameter { family: 49, function: 69, value: n },
    )) by {
        lemma_gs_stream();
    }
    lemma_symbol(m, s, rest, SymbolSetting::Parameter { family: 49, function: 69, value: n });
}

/// `GS ( k` 50 65: the type of a DataMatrix symbol is taken and not used.
pub proof fn datamatrix_type_is_taken(m: Machine, lo: u8, hi: u8, n: u8, rest: Seq<u8>)
    requires
        m.renderer.pending.len() == 0,
        !m.renderer.in_command,
    ensures
        feed(m, seq![0x1Du8, 0x28u8, 0x6Bu8, lo, hi, 50, 65, n] + rest) == feed(
            logged(
                m,
                0x1D,
                0x28,
            ),
            rest,
        ),
{
    let s = seq![0x1Du8, 0x28u8, 0x6Bu8, lo, hi, 50, 65, n];
    let t = s + rest;
    assert(span(t) == Span::Ends(8) && command(t) == Command::Symbol(
        SymbolSetting::Parameter { family: 50, function: 65, value: n },
    )) by {
        lemma_gs_stream();
    }
    lemma_symbol(m, s, rest, SymbolSetting::Parameter { family: 50, function: 65, value: n });
}

/// `GS ( k` 50 67: module size of a DataMatrix symbol, one to eight dots.
pub proof fn datamatrix_module_size_is_set(m: Machine, lo: u8, hi: u8, n: u8, rest: Seq<u8>)
    requires
        m.renderer.pending.len() == 0,
        !m.renderer.in_command,
    ensures
        feed(m, seq![0x1Du8, 0x28u8, 0x6Bu8, lo, hi, 50, 67, n] + rest) == feed(
            logged(
                (Machine {
                    renderer: RendererView {
                        symbols: SymbolSettings { datamatrix_module_size: if n == 0 {
                            1
                        } else if n > 8 {
                            8
                        } else {
                            n
                        }, ..m.renderer.symbols },
                        ..m.renderer
                    },
                    ..m
                }),
                0x1D,
                0x28,
            ),
            rest,
        ),
{
    let s = seq![0x1Du8, 0x28u8, 0x6Bu8, lo, hi, 50, 67, n];
    let t = s + rest;
    assert(span(t) == Span::Ends(8) && command(t) == Command::Symbol(
        SymbolSetting::Parameter { family: 50, function: 67, value: n },
    )) by {
        lemma_gs_stream();
    }
    lemma_symbol(m, s, rest, SymbolSetting::Parameter { family: 50, function: 67, value: n });
}

/// `DC2 # n` sets the density from a byte: an eighth of its range for each step.
pub proof fn dc2_sets_density(m: Machine, n: u8, rest: Seq<u8>)
    requires
        m.renderer.pending.len() == 0,
        !m.renderer.in_command,
    ensures
        feed(m, seq![0x12u8, 0x23u8, n] + rest) == feed(
            (Machine {
                renderer: RendererView {
                    state: PrinterState { print_density: n / 32, ..m.renderer.state },
                    ..m.renderer
                },
                ..m
            }),
            rest,
        ),
{
    let s = seq![0x12u8, 0x23u8, n];
    let t = s + rest;
    assert(span(t) == Span::Ends(3) && command(t) == Command::Format(Setting::Density(n / 32))) by {
        reveal(span);
        reveal(command);
    }
    lemma_plain_effect(m, s, rest);
}

/// DC2 without `#` switches bold off, and has no parameter.
pub proof fn dc2_switches_bold_off(m: Machine, rest: Seq<u8>)
    requires
        m.renderer.pending.len() == 0,
        !m.renderer.in_command,
        rest.len() > 0 ==> rest[0] != 0x23,
    ensures
        feed(m, seq![0x12u8] + rest) == feed(
            (Machine {
                renderer: RendererView {
                    state: PrinterState { bold: false, ..m.renderer.state },
                    ..m.renderer
                },
                ..m
            }),
            rest,
        ),
        feed(m, seq![0x12u8, 0x23u8]) == m,
{
    let s = seq![0x12u8];
    let t = s + rest;
    let u = seq![0x12u8, 0x23u8];
    reveal(span);
    reveal(command);
    if rest.len() > 0 {
        assert(t[1] == rest[0]);
    }
    lemma_plain_effect(m, s, rest);
    assert(u + Seq::<u8>::empty() =~= u);
    lemma_plain_effect(m, u, Seq::empty());
    nothing_sent_is_nothing(m);
}

/// `ESC @` sets everything back, but for the settings of QR codes: plain text to
/// the left in font A and page 0, at density four, 30 dots a line; barcodes 162
/// dots high with bars three dots wide and no text; two-dimensional symbols three
/// dots a module.
pub proof fn everything_is_reset(m: Machine, rest: Seq<u8>)
    requires
        m.renderer.pending.len() == 0,
        !m.renderer.in_command,
    ensures
        feed(m, seq![0x1Bu8, 0x40u8] + rest) == feed(
            logged(
                (Machine {
                    renderer: RendererView {
                        state: PrinterState {
                            bold: false,
                            underline: false,
                            double_width: false,
                            double_height: false,
                            inverted: false,
                            alignment: Alignment::Left,
                            print_density: 4,
                            encoding: TextEncoding::Utf8,
                            code_page: 0,
                            horizontal_offset: 0,
                            left_margin: 0,
                            print_area_width: 0,
                            line_spacing: 30,
                            character_spacing: 0,
                            double_strike: false,
                            font: 0,
                        },
                        symbols: SymbolSettings {
                            qr_size: m.renderer.symbols.qr_size,
                            qr_error_correction: m.renderer.symbols.qr_error_correction,
                            barcode_hri_position: HriPosition::Hidden,
                            barcode_height: 162,
                            barcode_module_width: 3,
                            pdf417_columns: 0,
                            pdf417_rows: 0,
                            pdf417_module_width: 3,
                            pdf417_error_correction: 1,
                            pdf417_truncated: false,
                            datamatrix_module_size: 3,
                        },
                        ..m.renderer
                    },
                    ..m
                }),
                0x1B,
                0x40,
            ),
            rest,
        ),
{
    let s = seq![0x1Bu8, 0x40u8];
    let t = s + rest;
    assert(span(t) == Span::Ends(2) && command(t) == Command::Initialize) by {
        lemma_esc_stream();
    }
    lemma_effect(m, s, rest);
}

/// A new connection starts as `ESC @` leaves it, with QR modules of three dots,
/// and with nothing printed, stored or waiting.
pub proof fn fresh_printer_is_reset(debug: bool, d: DeviceView)
    ensures
        ({
            let m = Machine { renderer: fresh_renderer(debug), device: d };
            &&& feed(m, seq![0x1Bu8, 0x40u8]).renderer == m.renderer
            &&& m.renderer.symbols.qr_size == 3
            &&& m.renderer.symbols.qr_error_correction == 0
            &&& m.renderer.line.len() == 0
            &&& m.renderer.debug == debug
            &&& m.renderer.pending.len() == 0
            &&& m.renderer.elements.len() == 0
            &&& !m.renderer.in_command
            &&& m.renderer.qr_data.len() == 0
            &&& m.renderer.pdf417_data.len() == 0
            &&& m.renderer.datamatrix_data.len() == 0
            &&& m.renderer.responses.len() == 0
            &&& !m.renderer.after_binary
            &&& m.renderer.dumps.len() == 0
        }),
{
    let m = Machine { renderer: fresh_renderer(debug), device: d };
    let s = seq![0x1Bu8, 0x40u8];
    everything_is_reset(m, Seq::empty());
    assert(s + Seq::<u8>::empty() =~= s);
    nothing_sent_is_nothing(
        logged(
            Machine {
                renderer: RendererView {
                    state: default_state(),
                    symbols: default_symbols(),
                    ..m.renderer
                },
                ..m
            },
            0x1B,
            0x40,
        ),
    );
}

} // verus!
