//! What the printer promises of text, of its status and of commands in general.

use vstd::prelude::*;
use crate::chunking::{pieces_add_up, whole, whole_commands};
use crate::codepage::{TextEncoding, all_ascii, ascii_chars, line_text, oem_text, windows_code_page};
use crate::codes::{
    DLE, ENQ, EOT, ESC, ESC_DRAWER, ESC_FEED_LINES, ESC_INITIALIZE, FF, GS, GS_ASB, GS_CUT,
    GS_IDENTIFY, GS_STATUS, LF, is_text, opens_command,
};
use crate::element::ElementView;
use crate::framing::{Span, leftover, span, span_bounds, well_framed};
use crate::model::{
    Command, Machine, RendererView, apply, apply_device, automatic_status, command, cut_name,
    feed, feed_line, feed_lines, gs_short_command, identification, is_logged, print_line, run,
    step,
};
use crate::state::{
    DeviceView, PrinterState, PrinterStatus, SymbolSettings, default_state, default_symbols,
    log_entry, real_time_status, text_element, transmitted_status,
};

verus! {

/// Nothing waits, no command is under way, and bytes are taken as text.
pub open spec fn ready(m: Machine) -> bool {
    &&& m.renderer.pending.len() == 0
    &&& !m.renderer.in_command
    &&& !m.renderer.after_binary
}

/// A stream that is one complete command does what the command does, and leaves
/// nothing waiting.
pub proof fn one_command(m: Machine, s: Seq<u8>)
    requires
        m.renderer.pending.len() == 0,
        s.len() > 0,
        span(s) == Span::Ends(s.len() as int),
    ensures
        well_framed(m.renderer.pending + s),
        feed(m, s) == (Machine {
            renderer: RendererView { pending: Seq::empty(), ..step(m, s).renderer },
            ..step(m, s)
        }),
{
    assert(m.renderer.pending + s =~= s);
    assert(s.skip(s.len() as int) =~= Seq::empty());
    assert(run(step(m, s), Seq::empty()) == step(m, s));
    assert(leftover(Seq::empty()) =~= Seq::empty());
    assert(well_framed(s.skip(s.len() as int)));
}

/// What waits is the end of what has arrived.
pub proof fn leftover_is_suffix(s: Seq<u8>)
    ensures
        leftover(s).len() <= s.len(),
        leftover(s) == s.skip(s.len() - leftover(s).len()),
    decreases s.len(),
{
    if s.len() > 0 {
        span_bounds(s);
        if let Span::Ends(e) = span(s) {
            leftover_is_suffix(s.skip(e));
            assert(s.skip(e).skip(s.len() - e - leftover(s).len()) =~= s.skip(
                s.len() - leftover(s).len(),
            ));
        } else {
            assert(s.skip(0) =~= s);
        }
    } else {
        assert(s.skip(0) =~= s);
    }
}

/// A command that is not complete is an ESC or GS command, or a single byte that
/// is text or opens a command.
pub proof fn incomplete_commands(s: Seq<u8>)
    requires
        s.len() > 0,
        span(s) is Incomplete,
    ensures
        s.len() == 1 || s[0] == ESC || s[0] == GS,
        s.len() == 1 ==> is_text(s[0]) || opens_command(s[0]),
{
    reveal(span);
}

/// Bytes wait only where the command that they start cannot be carried out yet:
/// an ESC or GS command, or one last byte.
pub proof fn leftover_is_incomplete(s: Seq<u8>)
    requires
        well_framed(s),
    ensures
        leftover(s).len() > 0 ==> {
            let rest = leftover(s);
            &&& span(rest) is Incomplete
            &&& rest.len() == 1 || rest[0] == ESC || rest[0] == GS
            &&& rest.len() == 1 ==> is_text(rest[0]) || opens_command(rest[0])
        },
    decreases s.len(),
{
    if leftover(s).len() > 0 && span(leftover(s)) is Incomplete {
        incomplete_commands(leftover(s));
    }
    if s.len() > 0 {
        span_bounds(s);
        if let Span::Ends(e) = span(s) {
            leftover_is_incomplete(s.skip(e));
        }
    }
}

/// A command that is not complete changes nothing but what waits.
pub proof fn incomplete_command_waits(m: Machine, bytes: Seq<u8>)
    requires
        m.renderer.pending.len() + bytes.len() > 0,
        span(m.renderer.pending + bytes) is Incomplete,
    ensures
        feed(m, bytes) == (Machine {
            renderer: RendererView {
                pending: m.renderer.pending + bytes,
                in_command: m.renderer.in_command || opens_command(
                    (m.renderer.pending + bytes)[0],
                ),
                ..m.renderer
            },
            ..m
        }),
{
}

proof fn lemma_text_byte(m: Machine, s: Seq<u8>)
    requires
        s.len() > 1,
        is_text(s[0]),
    ensures
        span(s) == Span::Ends(1),
        step(m, s) == (if m.renderer.in_command || m.renderer.after_binary {
            m
        } else {
            Machine {
                renderer: RendererView { line: m.renderer.line.push(s[0]), ..m.renderer },
                ..m
            }
        }),
{
    reveal(span);
    reveal(step);
    reveal(command);
}

proof fn lemma_text_run(m: Machine, text: Seq<u8>, end: Seq<u8>)
    requires
        !m.renderer.in_command,
        !m.renderer.after_binary,
        end.len() > 0,
        forall|k: int| 0 <= k < text.len() ==> is_text(#[trigger] text[k]),
    ensures
        run(m, text + end) == run(
            Machine {
                renderer: RendererView { line: m.renderer.line + text, ..m.renderer },
                ..m
            },
            end,
        ),
        leftover(text + end) == leftover(end),
        well_framed(text + end) == well_framed(end),
    decreases text.len(),
{
    let s = text + end;
    if text.len() == 0 {
        assert(s =~= end);
        assert(m.renderer.line + text =~= m.renderer.line);
    } else {
        lemma_text_byte(m, s);
        let rest = text.skip(1);
        assert(s.skip(1) =~= rest + end);
        assert forall|k: int| 0 <= k < rest.len() implies is_text(#[trigger] rest[k]) by {
            assert(rest[k] == text[k + 1]);
        }
        lemma_text_run(step(m, s), rest, end);
        assert(m.renderer.line.push(text[0]) + rest =~= m.renderer.line + text);
    }
}

/// Text and a line feed print one line: the bytes of the line in the selected
/// code page, in the formatting of the moment. Nothing else is printed, and the
/// horizontal offset is used up.
pub proof fn line_is_printed(m: Machine, text: Seq<u8>)
    requires
        ready(m),
        text.len() > 0,
        forall|k: int| 0 <= k < text.len() ==> is_text(#[trigger] text[k]),
    ensures
        well_framed(m.renderer.pending + (text + seq![LF])),
        feed(m, text + seq![LF]) == (Machine {
            renderer: RendererView {
                elements: m.renderer.elements.push(
                    text_element(
                        m.renderer.state,
                        line_text(
                            m.renderer.state.code_page,
                            m.renderer.state.encoding,
                            m.renderer.line + text,
                        ),
                    ),
                ),
                line: Seq::empty(),
                state: PrinterState { horizontal_offset: 0, ..m.renderer.state },
                ..m.renderer
            },
            ..m
        }),
{
    let end = seq![LF];
    let s = text + end;
    let full = Machine {
        renderer: RendererView { line: m.renderer.line + text, ..m.renderer },
        ..m
    };
    assert(m.renderer.pending + s =~= s);
    lemma_text_run(m, text, end);
    assert(span(end) == Span::Ends(1)) by {
        reveal(span);
    }
    one_command(full, end);
    assert(full.renderer.pending + end =~= end);
    assert(step(full, end).renderer == feed_line(full.renderer)) by {
        reveal(step);
    reveal(command);
    }
    assert(step(full, end).device == m.device) by {
        reveal(step);
    reveal(command);
    }
    assert(run(full, end) == step(full, end)) by {
        assert(end.skip(1) =~= Seq::empty());
        assert(run(step(full, end), Seq::empty()) == step(full, end));
    }
    assert(leftover(end) =~= Seq::empty()) by {
        assert(end.skip(1) =~= Seq::empty());
    }
    assert(m.renderer.pending =~= Seq::empty());
}

/// ASCII text is printed as it is, in every code page and encoding.
pub proof fn ascii_text_is_kept(code_page: u8, encoding: TextEncoding, bytes: Seq<u8>)
    requires
        all_ascii(bytes),
    ensures
        line_text(code_page, encoding, bytes) == ascii_chars(bytes),
{
    if let Some(cp) = windows_code_page(code_page) {
        assert(oem_text(cp, bytes) =~= ascii_chars(bytes));
    }
}

/// `m` with one more entry in the command log.
pub open spec fn logged(m: Machine, opener: u8, code: u8) -> Machine {
    Machine {
        device: DeviceView { log: m.device.log.push(log_entry(opener, code)), ..m.device },
        ..m
    }
}

pub(crate) proof fn lemma_logged_command(m: Machine, s: Seq<u8>, c: Command)
    requires
        m.renderer.pending.len() == 0,
        s.len() > 1,
        is_logged(s[0]),
        span(s) == Span::Ends(s.len() as int),
        command(s) == c,
    ensures
        feed(m, s) == logged(
            (Machine {
                renderer: RendererView {
                    pending: Seq::empty(),
                    in_command: false,
                    ..apply(m.renderer, m.device, c)
                },
                device: apply_device(m.device, c),
            }),
            s[0],
            s[1],
        ),
{
    one_command(m, s);
    reveal(step);
}

/// `ESC @` brings the formatting back to what it was after power-on, whatever it
/// is. It prints nothing and keeps the line, the stored symbols, the NV images
/// and the settings of QR codes.
pub proof fn initialize_resets(m: Machine)
    requires
        ready(m),
    ensures
        feed(m, seq![ESC, ESC_INITIALIZE]) == logged(
            (Machine {
                renderer: RendererView {
                    state: default_state(),
                    symbols: SymbolSettings {
                        qr_size: m.renderer.symbols.qr_size,
                        qr_error_correction: m.renderer.symbols.qr_error_correction,
                        ..default_symbols()
                    },
                    ..m.renderer
                },
                ..m
            }),
            ESC,
            ESC_INITIALIZE,
        ),
{
    let s = seq![ESC, ESC_INITIALIZE];
    assert(span(s) == Span::Ends(2) && command(s) == Command::Initialize) by {
        reveal(span);
        reveal(command);
    }
    lemma_logged_command(m, s, Command::Initialize);
    assert(m.renderer.pending =~= Seq::empty());
}

/// A form feed drops the line, and ends the form unless it has just ended. Two in
/// a row are one.
pub proof fn form_feed_twice_is_once(m: Machine)
    requires
        m.renderer.pending.len() == 0,
    ensures
        feed(m, seq![FF]) == (Machine {
            renderer: RendererView {
                line: Seq::empty(),
                elements: if m.renderer.elements.len() > 0
                    && m.renderer.elements.last() is FormFeed {
                    m.renderer.elements
                } else {
                    m.renderer.elements.push(ElementView::FormFeed)
                },
                ..m.renderer
            },
            ..m
        }),
        feed(feed(m, seq![FF]), seq![FF]) == feed(m, seq![FF]),
{
    assert(m.renderer.pending =~= Seq::empty());
    let s = seq![FF];
    assert(span(s) == Span::Ends(1)) by {
        reveal(span);
    }
    one_command(m, s);
    let once = feed(m, s);
    one_command(once, s);
    reveal(step);
    reveal(command);
}

/// A line feed on an empty line prints nothing before the first element, and a
/// blank line after it.
pub proof fn blank_lines_follow_output(m: Machine)
    requires
        ready(m),
        m.renderer.line.len() == 0,
    ensures
        m.renderer.elements.len() == 0 ==> feed(m, seq![LF]) == m,
        m.renderer.elements.len() > 0 ==> feed(m, seq![LF]) == (Machine {
            renderer: RendererView {
                elements: m.renderer.elements.push(ElementView::Separator),
                ..m.renderer
            },
            ..m
        }),
{
    let s = seq![LF];
    assert(span(s) == Span::Ends(1)) by {
        reveal(span);
    }
    one_command(m, s);
    reveal(step);
    reveal(command);
    assert(m.renderer.pending =~= Seq::empty());
}

proof fn lemma_dropped_run(m: Machine, text: Seq<u8>, end: Seq<u8>)
    requires
        m.renderer.after_binary,
        end.len() > 0,
        forall|k: int| 0 <= k < text.len() ==> is_text(#[trigger] text[k]),
    ensures
        run(m, text + end) == run(m, end),
        leftover(text + end) == leftover(end),
    decreases text.len(),
{
    let s = text + end;
    if text.len() == 0 {
        assert(s =~= end);
    } else {
        lemma_text_byte(m, s);
        let rest = text.skip(1);
        assert(s.skip(1) =~= rest + end);
        assert forall|k: int| 0 <= k < rest.len() implies is_text(#[trigger] rest[k]) by {
            assert(rest[k] == text[k + 1]);
        }
        lemma_dropped_run(m, rest, end);
    }
}

/// Text between an image and the next line end is dropped: stray image data is
/// not printed as text.
pub proof fn text_after_image_is_dropped(m: Machine, text: Seq<u8>)
    requires
        m.renderer.pending.len() == 0,
        m.renderer.after_binary,
        forall|k: int| 0 <= k < text.len() ==> is_text(#[trigger] text[k]),
    ensures
        feed(m, text + seq![LF]) == feed(m, seq![LF]),
        !feed(m, seq![LF]).renderer.after_binary,
{
    let end = seq![LF];
    assert(m.renderer.pending + (text + end) =~= text + end);
    assert(m.renderer.pending + end =~= end);
    lemma_dropped_run(m, text, end);
    assert(span(end) == Span::Ends(1)) by {
        reveal(span);
    }
    one_command(m, end);
    reveal(step);
    reveal(command);
}

/// A cut prints the line and keeps its bytes, so that the next line end prints
/// them again.
pub proof fn cut_keeps_line(m: Machine, mode: u8)
    requires
        ready(m),
    ensures
        feed(m, seq![GS, GS_CUT, mode]) == logged(
            (Machine {
                renderer: RendererView {
                    elements: print_line(m.renderer).elements.push(
                        ElementView::PaperCut { cut_type: cut_name(mode) },
                    ),
                    ..print_line(m.renderer)
                },
                ..m
            }),
            GS,
            GS_CUT,
        ),
        feed(m, seq![GS, GS_CUT, mode]).renderer.line == m.renderer.line,
{
    let s = seq![GS, GS_CUT, mode];
    assert(span(s) == Span::Ends(3) && command(s) == Command::Cut(mode)) by {
        reveal(span);
        reveal(command);
    }
    lemma_logged_command(m, s, Command::Cut(mode));
    assert(m.renderer.pending =~= Seq::empty());
}

/// A real-time status request is answered with one byte and changes nothing
/// else.
pub proof fn status_request_is_answered(m: Machine, request: u8, n: u8)
    requires
        ready(m),
        request == EOT || request == ENQ,
    ensures
        feed(m, seq![DLE, request, n]) == (Machine {
            renderer: RendererView {
                responses: m.renderer.responses.push(real_time_status(m.device.status)),
                ..m.renderer
            },
            ..m
        }),
{
    let s = seq![DLE, request, n];
    assert(span(s) == Span::Ends(3)) by {
        reveal(span);
    }
    one_command(m, s);
    reveal(step);
    reveal(command);
    assert(m.renderer.pending =~= Seq::empty());
}

/// The bits of the status bytes tell the sensors.
pub proof fn status_bits(st: PrinterStatus)
    ensures
        real_time_status(st) & 0x02 != 0,
        real_time_status(st) & 0x10 != 0 <==> st.online,
        real_time_status(st) & 0x20 != 0 <==> !st.cover_closed,
        transmitted_status(st) & 0x08 != 0 <==> st.paper_present,
        transmitted_status(st) & 0x10 != 0 <==> !st.online,
        automatic_status(st).len() == 4,
        automatic_status(st)[0] & 0x10 != 0,
        automatic_status(st)[0] & 0x04 != 0 <==> st.drawer_open,
        automatic_status(st)[0] & 0x08 != 0 <==> !st.online,
        automatic_status(st)[0] & 0x20 != 0 <==> !st.cover_closed,
        automatic_status(st)[1] == 0,
        automatic_status(st)[2] & 0x0C != 0 <==> !st.paper_present,
        automatic_status(st)[3] == 0,
{
    let a = real_time_status(st);
    let b = transmitted_status(st);
    let c = automatic_status(st)[0];
    let e = automatic_status(st)[2];
    assert((a == 0x12 ==> a & 0x02 != 0 && a & 0x10 != 0 && a & 0x20 == 0) && (a == 0x32 ==> a
        & 0x02 != 0 && a & 0x10 != 0 && a & 0x20 != 0) && (a == 0x02 ==> a & 0x02 != 0 && a & 0x10
        == 0 && a & 0x20 == 0) && (a == 0x22 ==> a & 0x02 != 0 && a & 0x10 == 0 && a & 0x20 != 0))
        by (bit_vector);
    assert((b == 0x08 ==> b & 0x08 != 0 && b & 0x10 == 0) && (b == 0x18 ==> b & 0x08 != 0 && b
        & 0x10 != 0) && (b == 0x00 ==> b & 0x08 == 0 && b & 0x10 == 0) && (b == 0x10 ==> b & 0x08
        == 0 && b & 0x10 != 0)) by (bit_vector);
    let x: u8 = if st.drawer_open {
        0x04
    } else {
        0
    };
    let y: u8 = if st.online {
        0
    } else {
        0x08
    };
    let z: u8 = if st.cover_closed {
        0
    } else {
        0x20
    };
    assert(c & 0x10 != 0 && (c & 0x04 != 0 <==> x == 0x04) && (c & 0x08 != 0 <==> y == 0x08) && (c
        & 0x20 != 0 <==> z == 0x20)) by (bit_vector)
        requires
            c == 0x10 + x + y + z,
            x == 0 || x == 0x04,
            y == 0 || y == 0x08,
            z == 0 || z == 0x20,
    ;
    assert((e == 0 ==> e & 0x0C == 0) && (e == 0x0C ==> e & 0x0C != 0)) by (bit_vector);
}

/// `ESC p` opens the drawer, and records the pulse.
pub proof fn drawer_opens(m: Machine, pin: u8, on_time: u8, off_time: u8)
    requires
        ready(m),
    ensures
        feed(m, seq![ESC, ESC_DRAWER, pin, on_time, off_time]) == logged(
            (Machine {
                renderer: RendererView {
                    elements: m.renderer.elements.push(
                        ElementView::CashDrawer { pin, on_time, off_time },
                    ),
                    ..m.renderer
                },
                device: DeviceView {
                    status: PrinterStatus { drawer_open: true, ..m.device.status },
                    ..m.device
                },
            }),
            ESC,
            ESC_DRAWER,
        ),
{
    let s = seq![ESC, ESC_DRAWER, pin, on_time, off_time];
    let c = Command::OpenDrawer { pin, on_time, off_time };
    assert(span(s) == Span::Ends(5) && command(s) == c) by {
        reveal(span);
        reveal(command);
    }
    lemma_logged_command(m, s, c);
    assert(m.renderer.pending =~= Seq::empty());
}

/// No command closes the drawer, nor moves any other sensor.
pub proof fn drawer_stays_open(m: Machine, bytes: Seq<u8>)
    requires
        m.device.status.drawer_open,
    ensures
        feed(m, bytes).device.status == m.device.status,
{
    lemma_run_status(m, m.renderer.pending + bytes);
}

proof fn lemma_run_status(m: Machine, s: Seq<u8>)
    requires
        m.device.status.drawer_open,
    ensures
        run(m, s).device.status == m.device.status,
    decreases s.len(),
{
    if s.len() > 0 {
        span_bounds(s);
        if let Span::Ends(e) = span(s) {
            assert(step(m, s).device.status == m.device.status) by {
                reveal(step);
    reveal(command);
            }
            lemma_run_status(step(m, s), s.skip(e));
        }
    }
}

/// Text is printed by the end of its line only: until then it prints nothing.
pub proof fn text_alone_prints_nothing(m: Machine, text: Seq<u8>)
    requires
        forall|k: int|
            0 <= k < m.renderer.pending.len() ==> is_text(#[trigger] m.renderer.pending[k]),
        forall|k: int| 0 <= k < text.len() ==> is_text(#[trigger] text[k]),
    ensures
        feed(m, text).renderer.elements == m.renderer.elements,
        feed(m, text).device == m.device,
{
    lemma_text_keeps_output(m, m.renderer.pending + text);
}

proof fn lemma_text_keeps_output(m: Machine, s: Seq<u8>)
    requires
        forall|k: int| 0 <= k < s.len() ==> is_text(#[trigger] s[k]),
    ensures
        run(m, s).renderer.elements == m.renderer.elements,
        run(m, s).device == m.device,
    decreases s.len(),
{
    if s.len() > 1 {
        lemma_text_byte(m, s);
        let rest = s.skip(1);
        assert forall|k: int| 0 <= k < rest.len() implies is_text(#[trigger] rest[k]) by {
            assert(rest[k] == s[k + 1]);
        }
        lemma_text_keeps_output(step(m, s), rest);
    } else if s.len() == 1 {
        assert(is_text(s[0]));
        assert(span(s) is Incomplete) by {
            reveal(span);
        }
    }
}

/// A complete command that asks for nothing the printer has is logged, and
/// changes nothing else.
pub proof fn ignored_command_is_logged(m: Machine, s: Seq<u8>)
    requires
        ready(m),
        s.len() > 1,
        is_logged(s[0]),
        span(s) == Span::Ends(s.len() as int),
        command(s) is Ignored,
    ensures
        feed(m, s) == logged(m, s[0], s[1]),
{
    lemma_logged_command(m, s, Command::Ignored);
    assert(m.renderer.pending =~= Seq::empty());
}

/// The bytes that answer `GS code n`.
pub open spec fn answer(status: PrinterStatus, code: u8, n: u8) -> Seq<u8> {
    if code == GS_STATUS {
        seq![transmitted_status(status)]
    } else if code == GS_IDENTIFY {
        identification(n)
    } else if code == GS_ASB && n != 0 {
        automatic_status(status)
    } else {
        seq![]
    }
}

/// The status and identification commands are answered, and change nothing else.
pub proof fn queries_are_answered(m: Machine, code: u8, n: u8)
    requires
        ready(m),
        code == GS_STATUS || code == GS_IDENTIFY || code == GS_ASB,
    ensures
        feed(m, seq![GS, code, n]) == logged(
            (Machine {
                renderer: RendererView {
                    responses: m.renderer.responses + answer(m.device.status, code, n),
                    ..m.renderer
                },
                ..m
            }),
            GS,
            code,
        ),
{
    let s = seq![GS, code, n];
    let c = gs_short_command(code, n);
    assert(span(s) == Span::Ends(3) && command(s) == c) by {
        reveal(span);
        reveal(command);
    }
    lemma_logged_command(m, s, c);
    let responses = m.renderer.responses;
    let a = answer(m.device.status, code, n);
    assert(m.renderer.pending =~= Seq::empty());
    assert(responses + seq![transmitted_status(m.device.status)] =~= responses.push(
        transmitted_status(m.device.status),
    ));
    assert(responses + Seq::<u8>::empty() =~= responses);
}

/// The printer after `n` line feeds.
pub open spec fn line_feeds(m: Machine, n: nat) -> Machine
    decreases n,
{
    if n == 0 {
        m
    } else {
        line_feeds(feed(m, seq![LF]), (n - 1) as nat)
    }
}

/// The elements, the line and the formatting are the same.
pub open spec fn same_print(a: RendererView, b: RendererView) -> bool {
    &&& a.elements == b.elements
    &&& a.line == b.line
    &&& a.state == b.state
}

proof fn lemma_line_feeds(m: Machine, r: RendererView, n: nat)
    requires
        m.renderer.pending.len() == 0,
        same_print(m.renderer, r),
    ensures
        same_print(line_feeds(m, n).renderer, feed_lines(r, n)),
    decreases n,
{
    if n > 0 {
        let s = seq![LF];
        assert(span(s) == Span::Ends(1)) by {
            reveal(span);
        }
        one_command(m, s);
        assert(same_print(feed(m, s).renderer, feed_line(r))) by {
            reveal(step);
            reveal(command);
        }
        lemma_line_feeds(feed(m, s), feed_line(r), (n - 1) as nat);
    }
}

/// `ESC d n` prints what `n` line feeds print, for every `n`: with zero it prints
/// nothing and keeps the line.
pub proof fn feeding_lines_is_line_feeds(m: Machine, n: u8)
    requires
        m.renderer.pending.len() == 0,
    ensures
        same_print(
            feed(m, seq![ESC, ESC_FEED_LINES, n]).renderer,
            line_feeds(m, n as nat).renderer,
        ),
{
    let s = seq![ESC, ESC_FEED_LINES, n];
    let c = Command::FeedLines(n);
    assert(span(s) == Span::Ends(3) && command(s) == c) by {
        reveal(span);
        reveal(command);
    }
    lemma_logged_command(m, s, c);
    lemma_line_feeds(m, m.renderer, n as nat);
}

/// A command that waits for all its bytes may be cut anywhere. The first piece
/// changes nothing but what waits, and both pieces do what the command does.
pub proof fn waiting_command_may_be_cut(m: Machine, s: Seq<u8>, k: int)
    requires
        m.renderer.pending.len() == 0,
        s.len() > 0,
        opens_command(s[0]),
        span(s) == Span::Ends(s.len() as int),
        whole(s),
        0 <= k <= s.len(),
        0 < k < s.len() ==> span(s.take(k)) is Incomplete,
    ensures
        feed(feed(m, s.take(k)), s.skip(k)) == feed(m, s),
        0 < k < s.len() ==> feed(m, s.take(k)) == (Machine {
            renderer: RendererView { pending: s.take(k), in_command: true, ..m.renderer },
            ..m
        }),
{
    let first = s.take(k);
    let second = s.skip(k);
    one_command(m, s);
    assert(first + second =~= s);
    assert(m.renderer.pending + first =~= first);
    if k == s.len() {
        assert(first =~= s);
        assert(s.skip(k) =~= Seq::empty());
        assert(whole_commands(Seq::empty()));
        assert(whole_commands(s));
    } else if k > 0 {
        incomplete_command_waits(m, first);
    }
    pieces_add_up(m, first, second);
}

} // verus!
