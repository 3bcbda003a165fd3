//! What text, line ends and the commands without an image or a symbol do.
//!
//! In every law `rest` is whatever is sent behind: it is read on from the byte
//! behind the last parameter.

use vstd::prelude::*;
use crate::codepage::line_text;
use crate::codes::{ESC, FS, GS, is_text};
use crate::element::ElementView;
use crate::framing::{Span, span};
use crate::laws::{line_is_printed, logged};
use crate::model::{
    Command, Machine, RendererView, command, feed, feed_line, feed_lines, separators,
    separators_for,
};
use crate::setting_laws::bold_is_set;
use crate::state::{DeviceView, PrinterState, PrinterStatus, log_entry};
use crate::stream::{
    lemma_effect, lemma_esc_stream, lemma_gs_stream, lemma_plain_effect, nothing_sent_is_nothing,
};

verus! {

/// Bytes from 0x20 to 0x7E and from 0x80 on are text. A text byte goes to the end
/// of the line as soon as another byte follows it, unless image data came last;
/// then it is dropped.
pub proof fn text_byte_joins_line(m: Machine, b: u8, next: u8, rest: Seq<u8>)
    requires
        m.renderer.pending.len() == 0,
        !m.renderer.in_command,
        0x20 <= b <= 0x7E || 0x80 <= b,
    ensures
        feed(m, seq![b, next] + rest) == feed(
            (Machine {
                renderer: RendererView {
                    line: if m.renderer.after_binary {
                        m.renderer.line
                    } else {
                        m.renderer.line.push(b)
                    },
                    ..m.renderer
                },
                ..m
            }),
            seq![next] + rest,
        ),
        feed(m, seq![b]) == (Machine {
            renderer: RendererView { pending: seq![b], ..m.renderer },
            ..m
        }),
{
    let s = seq![b];
    let more = seq![next] + rest;
    assert(seq![b, next] + rest =~= s + more);
    assert(m.renderer.pending + s =~= s);
    reveal(span);
    reveal(command);
    lemma_plain_effect(m, s, more);
}

/// The other control characters are taken and do nothing.
pub proof fn control_characters_do_nothing(m: Machine, b: u8, rest: Seq<u8>)
    requires
        m.renderer.pending.len() == 0,
        !m.renderer.in_command,
        b <= 0x07 || b == 0x0B || b == 0x0E || b == 0x0F || b == 0x11 || 0x13 <= b <= 0x1A || b
            == 0x1E || b == 0x1F || b == 0x7F,
    ensures
        feed(m, seq![b] + rest) == feed(m, rest),
{
    let s = seq![b];
    reveal(span);
    reveal(command);
    lemma_plain_effect(m, s, rest);
}

/// HT adds four spaces to the line.
pub proof fn tab_is_four_spaces(m: Machine, rest: Seq<u8>)
    requires
        m.renderer.pending.len() == 0,
        !m.renderer.in_command,
    ensures
        feed(m, seq![0x09u8] + rest) == feed(
            (Machine {
                renderer: RendererView {
                    line: m.renderer.line + seq![0x20u8, 0x20u8, 0x20u8, 0x20u8],
                    ..m.renderer
                },
                ..m
            }),
            rest,
        ),
{
    let s = seq![0x09u8];
    let t = s + rest;
    assert(span(t) == Span::Ends(1) && command(t) == Command::Tab) by {
        reveal(span);
        reveal(command);
    }
    lemma_plain_effect(m, s, rest);
}

/// BS takes the last byte of the line away: it undoes a byte of text, and does
/// nothing on an empty line.
pub proof fn backspace_undoes_a_byte(m: Machine, line: Seq<u8>, b: u8, rest: Seq<u8>)
    requires
        m.renderer.pending.len() == 0,
        !m.renderer.in_command,
    ensures
        m.renderer.line == line.push(b) ==> feed(m, seq![0x08u8] + rest) == feed(
            (Machine { renderer: RendererView { line, ..m.renderer }, ..m }),
            rest,
        ),
        m.renderer.line.len() == 0 ==> feed(m, seq![0x08u8] + rest) == feed(m, rest),
{
    let s = seq![0x08u8];
    reveal(span);
    reveal(command);
    assert(line.push(b).drop_last() =~= line);
    lemma_plain_effect(m, s, rest);
}

/// LF and CR end a line that holds bytes alike: one text element, with the text of
/// the bytes in the selected code page and all formatting of the moment. The line
/// is empty then, the offset is used up, and text is taken again.
pub proof fn line_end_prints_line(m: Machine, end: u8, rest: Seq<u8>)
    requires
        m.renderer.pending.len() == 0,
        !m.renderer.in_command,
        m.renderer.line.len() > 0,
        end == 0x0A || end == 0x0D,
    ensures
        ({
            let r = m.renderer;
            let e = ElementView::Text {
                content: line_text(r.state.code_page, r.state.encoding, r.line),
                bold: r.state.bold,
                underline: r.state.underline,
                double_width: r.state.double_width,
                double_height: r.state.double_height,
                inverted: r.state.inverted,
                alignment: r.state.alignment,
                density: r.state.print_density,
                offset: r.state.horizontal_offset,
                left_margin: r.state.left_margin,
                character_spacing: r.state.character_spacing,
                double_strike: r.state.double_strike,
                font: r.state.font,
                print_area_width: r.state.print_area_width,
            };
            feed(m, seq![end] + rest) == feed(
                (Machine {
                    renderer: RendererView {
                        elements: r.elements.push(e),
                        line: Seq::empty(),
                        state: PrinterState { horizontal_offset: 0, ..r.state },
                        after_binary: false,
                        ..r
                    },
                    ..m
                }),
                rest,
            )
        }),
{
    let s = seq![end];
    reveal(span);
    reveal(command);
    lemma_plain_effect(m, s, rest);
}

/// On an empty line CR prints nothing, and LF prints a blank line where something
/// was printed before. Text is taken again.
pub proof fn line_end_on_empty_line(m: Machine, rest: Seq<u8>)
    requires
        m.renderer.pending.len() == 0,
        !m.renderer.in_command,
        m.renderer.line.len() == 0,
    ensures
        ({
            let r = RendererView { after_binary: false, ..m.renderer };
            &&& feed(m, seq![0x0Du8] + rest) == feed((Machine { renderer: r, ..m }), rest)
            &&& r.elements.len() == 0 ==> feed(m, seq![0x0Au8] + rest) == feed(
                (Machine { renderer: r, ..m }),
                rest,
            )
            &&& r.elements.len() > 0 ==> feed(m, seq![0x0Au8] + rest) == feed(
                (Machine {
                    renderer: RendererView {
                        elements: r.elements.push(ElementView::Separator),
                        ..r
                    },
                    ..m
                }),
                rest,
            )
        }),
{
    reveal(span);
    reveal(command);
    assert(m.renderer.line =~= Seq::empty());
    lemma_plain_effect(m, seq![0x0Du8], rest);
    lemma_plain_effect(m, seq![0x0Au8], rest);
}

/// FF drops the line and prints a form feed, unless one was printed last.
pub proof fn form_feed_ends_form(m: Machine, rest: Seq<u8>)
    requires
        m.renderer.pending.len() == 0,
        !m.renderer.in_command,
    ensures
        ({
            let r = RendererView { line: Seq::empty(), ..m.renderer };
            let e = r.elements;
            &&& e.len() > 0 && e.last() == ElementView::FormFeed ==> feed(m, seq![0x0Cu8] + rest)
                == feed((Machine { renderer: r, ..m }), rest)
            &&& e.len() == 0 || e.last() != ElementView::FormFeed ==> feed(m, seq![0x0Cu8] + rest)
                == feed(
                (Machine {
                    renderer: RendererView { elements: e.push(ElementView::FormFeed), ..r },
                    ..m
                }),
                rest,
            )
        }),
{
    reveal(span);
    reveal(command);
    lemma_plain_effect(m, seq![0x0Cu8], rest);
}

/// `n` line feeds, one after the other.
pub open spec fn line_fed(m: Machine, n: nat) -> Machine
    decreases n,
{
    if n == 0 {
        m
    } else {
        line_fed(feed(m, seq![0x0Au8]), (n - 1) as nat)
    }
}

proof fn lemma_fed_flag(r: RendererView, b: bool, n: nat)
    ensures
        feed_lines((RendererView { after_binary: b, ..r }), n) == (RendererView {
            after_binary: b,
            ..feed_lines(r, n)
        }),
    decreases n,
{
    if n > 0 {
        lemma_fed_flag(feed_line(r), b, (n - 1) as nat);
        assert(feed_line(RendererView { after_binary: b, ..r }) == RendererView {
            after_binary: b,
            ..feed_line(r)
        });
    }
}

proof fn lemma_line_fed(m: Machine, n: nat)
    requires
        m.renderer.pending.len() == 0,
        !m.renderer.in_command,
    ensures
        line_fed(m, n) == (Machine {
            renderer: RendererView {
                after_binary: n == 0 && m.renderer.after_binary,
                ..feed_lines(m.renderer, n)
            },
            ..m
        }),
        feed_lines(m.renderer, n).pending == m.renderer.pending,
        feed_lines(m.renderer, n).after_binary == m.renderer.after_binary,
        !feed_lines(m.renderer, n).in_command,
    decreases n,
{
    if n > 0 {
        let s = seq![0x0Au8];
        let fed = feed_line(m.renderer);
        let next = Machine { renderer: RendererView { after_binary: false, ..fed }, ..m };
        assert(feed(m, s) == next) by {
            reveal(span);
            reveal(command);
            assert(s + Seq::<u8>::empty() =~= s);
            lemma_plain_effect(m, s, Seq::empty());
            nothing_sent_is_nothing(next);
        }
        lemma_line_fed(next, (n - 1) as nat);
        lemma_fed_flag(fed, false, (n - 1) as nat);
        lemma_fed_flag(fed, fed.after_binary, (n - 1) as nat);
        assert(RendererView { after_binary: fed.after_binary, ..fed } == fed);
    }
}

/// `ESC d n` does what `n` line feeds do, and is logged; but text that is not taken
/// is still not taken.
pub proof fn fed_lines_are_line_feeds(m: Machine, n: u8, rest: Seq<u8>)
    requires
        m.renderer.pending.len() == 0,
        !m.renderer.in_command,
    ensures
        ({
            let fed = line_fed(m, n as nat);
            feed(m, seq![0x1Bu8, 0x64u8, n] + rest) == feed(
                logged(
                    (Machine {
                        renderer: RendererView {
                            after_binary: m.renderer.after_binary,
                            ..fed.renderer
                        },
                        ..fed
                    }),
                    0x1B,
                    0x64,
                ),
                rest,
            )
        }),
{
    let s = seq![0x1Bu8, 0x64u8, n];
    lemma_esc_stream();
    lemma_line_fed(m, n as nat);
    lemma_effect(m, s, rest);
}

/// `ESC J n` on an empty line shows a blank line for 24 dots begun, four at most,
/// whatever was printed before.
pub proof fn fed_dots_are_blank_lines(m: Machine, n: u8, rest: Seq<u8>)
    requires
        m.renderer.pending.len() == 0,
        !m.renderer.in_command,
        m.renderer.line.len() == 0,
    ensures
        ({
            let blank: nat = if n == 0 {
                0
            } else if n <= 24 {
                1
            } else if n <= 48 {
                2
            } else if n <= 72 {
                3
            } else {
                4
            };
            feed(m, seq![0x1Bu8, 0x4Au8, n] + rest) == feed(
                logged(
                    (Machine {
                        renderer: RendererView {
                            elements: m.renderer.elements + Seq::new(
                                blank,
                                |k: int| ElementView::Separator,
                            ),
                            ..m.renderer
                        },
                        ..m
                    }),
                    0x1B,
                    0x4A,
                ),
                rest,
            )
        }),
{
    let s = seq![0x1Bu8, 0x4Au8, n];
    lemma_esc_stream();
    assert(m.renderer.line =~= Seq::empty());
    let blank: nat = if n == 0 {
        0
    } else if n <= 24 {
        1
    } else if n <= 48 {
        2
    } else if n <= 72 {
        3
    } else {
        4
    };
    assert(separators_for(n) == blank);
    assert(separators(blank) =~= Seq::new(blank, |k: int| ElementView::Separator));
    lemma_effect(m, s, rest);
}

/// `ESC p m t1 t2` opens the drawer, and shows the pin and both times.
pub proof fn drawer_is_opened(m: Machine, pin: u8, on_time: u8, off_time: u8, rest: Seq<u8>)
    requires
        m.renderer.pending.len() == 0,
        !m.renderer.in_command,
    ensures
        feed(m, seq![0x1Bu8, 0x70u8, pin, on_time, off_time] + rest) == feed(
            logged(
                (Machine {
                    renderer: RendererView {
                        elements: m.renderer.elements.push(
                            ElementView::CashDrawer { pin, on_time, off_time },
                        ),
                        ..m.renderer
                    },
                    device: DeviceView {
                        status: PrinterStatus { drawer_open: true, ..m.device.status },
                        ..m.device
                    },
                }),
                0x1B,
                0x70,
            ),
            rest,
        ),
{
    let s = seq![0x1Bu8, 0x70u8, pin, on_time, off_time];
    let t = s + rest;
    assert(span(t) == Span::Ends(5) && command(t) == (Command::OpenDrawer { pin, on_time, off_time })) by {
        lemma_esc_stream();
    }
    lemma_effect(m, s, rest);
}

/// `GS V m` on an empty line shows a cut by its name.
pub proof fn cut_is_named(m: Machine, n: u8, rest: Seq<u8>)
    requires
        m.renderer.pending.len() == 0,
        !m.renderer.in_command,
        m.renderer.line.len() == 0,
    ensures
        ({
            let name = if n == 0 || n == 48 {
                "FULL CUT"@
            } else if n == 1 || n == 49 {
                "PARTIAL CUT"@
            } else if n == 65 {
                "FEED & FULL CUT"@
            } else if n == 66 {
                "FEED & PARTIAL CUT"@
            } else {
                "UNKNOWN CUT"@
            };
            feed(m, seq![0x1Du8, 0x56u8, n] + rest) == feed(
                logged(
                    (Machine {
                        renderer: RendererView {
                            elements: m.renderer.elements.push(
                                ElementView::PaperCut { cut_type: name },
                            ),
                            ..m.renderer
                        },
                        ..m
                    }),
                    0x1D,
                    0x56,
                ),
                rest,
            )
        }),
{
    let s = seq![0x1Du8, 0x56u8, n];
    lemma_gs_stream();
    lemma_effect(m, s, rest);
}

/// A request for the real-time status, by EOT or ENQ, is answered with one byte:
/// two, 16 more online and 32 more with the cover open.
pub proof fn real_time_status_is_sent(m: Machine, request: u8, n: u8, rest: Seq<u8>)
    requires
        m.renderer.pending.len() == 0,
        !m.renderer.in_command,
        request == 0x04 || request == 0x05,
    ensures
        ({
            let st = m.device.status;
            let byte = 2 + (if st.online {
                16int
            } else {
                0
            }) + (if st.cover_closed {
                0int
            } else {
                32
            });
            feed(m, seq![0x10u8, request, n] + rest) == feed(
                (Machine {
                    renderer: RendererView {
                        responses: m.renderer.responses.push(byte as u8),
                        ..m.renderer
                    },
                    ..m
                }),
                rest,
            )
        }),
{
    let s = seq![0x10u8, request, n];
    reveal(span);
    reveal(command);
    lemma_plain_effect(m, s, rest);
}

/// The other DLE commands do nothing: DC4 takes two parameters, the rest none.
#[verifier::rlimit(40)]
pub proof fn other_dle_commands_do_nothing(m: Machine, code: u8, a: u8, b: u8, rest: Seq<u8>)
    requires
        m.renderer.pending.len() == 0,
        !m.renderer.in_command,
    ensures
        feed(m, seq![0x10u8, 0x14u8, a, b] + rest) == feed(m, rest),
        code != 0x04 && code != 0x05 && code != 0x14 ==> feed(m, seq![0x10u8, code] + rest)
            == feed(m, rest),
        feed(m, seq![0x10u8, code]) == m,
        feed(m, seq![0x10u8, 0x14u8, a]) == feed(m, seq![a]),
{
    let e = Seq::<u8>::empty();
    reveal(span);
    reveal(command);
    lemma_plain_effect(m, seq![0x10u8, 0x14u8, a, b], rest);
    if code != 0x04 && code != 0x05 && code != 0x14 {
        lemma_plain_effect(m, seq![0x10u8, code], rest);
    }
    assert(seq![0x10u8, code] + e =~= seq![0x10u8, code]);
    lemma_plain_effect(m, seq![0x10u8, code], e);
    nothing_sent_is_nothing(m);
    assert(seq![0x10u8, 0x14u8] + seq![a] =~= seq![0x10u8, 0x14u8, a]);
    lemma_plain_effect(m, seq![0x10u8, 0x14u8], seq![a]);
}

/// `GS r n` is answered with one byte: eight with paper, 16 more offline.
pub proof fn status_is_sent(m: Machine, n: u8, rest: Seq<u8>)
    requires
        m.renderer.pending.len() == 0,
        !m.renderer.in_command,
    ensures
        ({
            let st = m.device.status;
            let byte = (if st.paper_present {
                8int
            } else {
                0
            }) + (if st.online {
                0int
            } else {
                16
            });
            feed(m, seq![0x1Du8, 0x72u8, n] + rest) == feed(
                logged(
                    (Machine {
                        renderer: RendererView {
                            responses: m.renderer.responses.push(byte as u8),
                            ..m.renderer
                        },
                        ..m
                    }),
                    0x1D,
                    0x72,
                ),
                rest,
            )
        }),
{
    let s = seq![0x1Du8, 0x72u8, n];
    lemma_gs_stream();
    lemma_effect(m, s, rest);
}

/// `GS a n` is answered with four bytes, unless `n` is zero: 16, four more with
/// the drawer open, eight more offline, 32 more with the cover open; then zero;
/// then twelve without paper; then zero.
pub proof fn automatic_status_is_sent(m: Machine, n: u8, rest: Seq<u8>)
    requires
        m.renderer.pending.len() == 0,
        !m.renderer.in_command,
    ensures
        ({
            let st = m.device.status;
            let first = 16 + (if st.drawer_open {
                4int
            } else {
                0
            }) + (if st.online {
                0int
            } else {
                8
            }) + (if st.cover_closed {
                0int
            } else {
                32
            });
            let third = if st.paper_present {
                0u8
            } else {
                12u8
            };
            feed(m, seq![0x1Du8, 0x61u8, n] + rest) == feed(
                logged(
                    (Machine {
                        renderer: RendererView {
                            responses: if n == 0 {
                                m.renderer.responses
                            } else {
                                m.renderer.responses + seq![first as u8, 0u8, third, 0u8]
                            },
                            ..m.renderer
                        },
                        ..m
                    }),
                    0x1D,
                    0x61,
                ),
                rest,
            )
        }),
{
    let s = seq![0x1Du8, 0x61u8, n];
    lemma_gs_stream();
    lemma_effect(m, s, rest);
}

/// `GS I n` is answered for 66 and 67 only, with a block from `_` to NUL around
/// the manufacturer or the model.
pub proof fn identification_is_sent(m: Machine, n: u8, rest: Seq<u8>)
    requires
        m.renderer.pending.len() == 0,
        !m.renderer.in_command,
    ensures
        ({
            let block = if n == 66 {
                seq![0x5Fu8, 0x43u8, 0x49u8, 0x54u8, 0x49u8, 0x5Au8, 0x45u8, 0x4Eu8, 0u8]
            } else if n == 67 {
                seq![0x5Fu8, 0x43u8, 0x54u8, 0x2Du8, 0x53u8, 0x33u8, 0x31u8, 0x30u8, 0u8]
            } else {
                Seq::<u8>::empty()
            };
            feed(m, seq![0x1Du8, 0x49u8, n] + rest) == feed(
                logged(
                    (Machine {
                        renderer: RendererView {
                            responses: m.renderer.responses + block,
                            ..m.renderer
                        },
                        ..m
                    }),
                    0x1D,
                    0x49,
                ),
                rest,
            )
        }),
{
    let s = seq![0x1Du8, 0x49u8, n];
    lemma_gs_stream();
    lemma_effect(m, s, rest);
}

/// The number that a hexadecimal digit in upper case stands for.
pub open spec fn hex_value(c: char) -> int {
    if '0' <= c <= '9' {
        c as int - 48
    } else {
        c as int - 55
    }
}

/// The log holds one entry more for a command: its two bytes as hexadecimal
/// numbers with a space between them, and the name of the first byte with the
/// second as a character. Nothing else changes.
pub proof fn log_tells_both_bytes(m: Machine, opener: u8, code: u8)
    requires
        opener == 0x1B || opener == 0x1C || opener == 0x1D,
    ensures
        ({
            let after = logged(m, opener, code);
            let entry = after.device.log.last();
            &&& after.renderer == m.renderer
            &&& after.device.status == m.device.status
            &&& after.device.nv_images == m.device.nv_images
            &&& after.device.log == m.device.log.push(entry)
            &&& entry.hex.len() == 5
            &&& entry.hex[0] == '1'
            &&& opener == 0x1B ==> entry.hex[1] == 'B'
            &&& opener == 0x1C ==> entry.hex[1] == 'C'
            &&& opener == 0x1D ==> entry.hex[1] == 'D'
            &&& entry.hex[2] == ' '
            &&& '0' <= entry.hex[3] <= '9' || 'A' <= entry.hex[3] <= 'F'
            &&& '0' <= entry.hex[4] <= '9' || 'A' <= entry.hex[4] <= 'F'
            &&& 16 * hex_value(entry.hex[3]) + hex_value(entry.hex[4]) == code
            &&& opener == 0x1B ==> entry.description == seq!['E', 'S', 'C', ' ', code as char]
            &&& opener == 0x1C ==> entry.description == seq!['F', 'S', ' ', code as char]
            &&& opener == 0x1D ==> entry.description == seq!['G', 'S', ' ', code as char]
        }),
{
    reveal_strlit("ESC ");
    reveal_strlit("GS ");
    reveal_strlit("FS ");
    let entry = log_entry(opener, code);
    assert(opener == 0x1B ==> entry.description =~= seq!['E', 'S', 'C', ' ', code as char]);
    assert(opener == 0x1C ==> entry.description =~= seq!['F', 'S', ' ', code as char]);
    assert(opener == 0x1D ==> entry.description =~= seq!['G', 'S', ' ', code as char]);
}

/// A line that is sent behind `ESC E n` has that bold flag, whatever its text.
pub proof fn line_behind_bold(m: Machine, n: u8, text: Seq<u8>)
    requires
        m.renderer.pending.len() == 0,
        !m.renderer.in_command,
        !m.renderer.after_binary,
        m.renderer.line.len() == 0,
        text.len() > 0,
        forall|k: int| 0 <= k < text.len() ==> is_text(#[trigger] text[k]),
    ensures
        ({
            let e = feed(m, seq![0x1Bu8, 0x45u8, n] + (text + seq![0x0Au8])).renderer.elements;
            &&& e.len() == m.renderer.elements.len() + 1
            &&& e.last() matches ElementView::Text { bold, .. } && bold == (n == 1)
        }),
{
    bold_is_set(m, n, text + seq![0x0Au8]);
    let b = logged(
        Machine {
            renderer: RendererView {
                state: PrinterState { bold: n == 1, ..m.renderer.state },
                ..m.renderer
            },
            ..m
        },
        0x1B,
        0x45,
    );
    line_is_printed(b, text);
}

} // verus!
