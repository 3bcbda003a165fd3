//! Bytes may arrive in pieces.
//!
//! A stream can be cut anywhere outside a command, and anywhere inside a command
//! that waits for its data, and the printer does the same as if the stream had
//! arrived in one piece. Only a command whose parameters are optional must not
//! be cut off from them.

use vstd::prelude::*;
use crate::codes::{
    DC2, DC2_DENSITY, DC4, ENQ, EOT, ESC, ESC_BIT_IMAGE, ESC_DEFAULT_SPACING, ESC_DEFINE_CHARS,
    ESC_DRAWER, ESC_EXTENDED, ESC_HOME, ESC_IMAGE_K, ESC_IMAGE_L, ESC_IMAGE_Y, ESC_IMAGE_Z,
    ESC_INITIALIZE, ESC_MOVE, ESC_OLD_CUT, ESC_PAGE_AREA, ESC_POSITION, ESC_SENSOR, ESC_TAB_STOPS,
    FS, FS_CODE_SYSTEM, FS_DEFINE_NV, FS_EXTENDED, FS_MEMORY, FS_PRINT_MODE, FS_PRINT_NV,
    FS_SPACING, FS_UNDERLINE, FS_WIDE_OFF, FS_WIDE_ON, GS, GS_8_GRAPHICS, GS_AREA_WIDTH,
    GS_BARCODE, GS_EXTENDED, GS_EXTENDED_LONG, GS_LEFT_MARGIN, GS_PAREN_SYMBOL, GS_RASTER,
    GS_VERTICAL, ceil_div, is_text, le16, le32, minus, opens_command,
};
use crate::element::Barcode2DVariant;
use crate::framing::{
    Span, column_height, column_image_valid, counted_system, esc_span, esc_span_bounds,
    fs_parameter, fs_span, graphics_bytes, graphics_prints, graphics_stores, gs_span,
    gs_span_bounds, leftover, lemma_nul_at, lemma_product16, nul_at, nul_terminated_system,
    nv_bytes, nv_end, raster_bytes, raster_prints, span, span_bounds, stored_bytes, symbol_sets,
    symbol_stores, well_framed,
};
use crate::model::{
    Command, Machine, RendererView, apply, command, esc_command, feed, feed_line, feed_lines,
    finish_line, fs_command, gs_command, print_image, print_line, print_qr, print_symbol, run,
    step, waiting,
};
use crate::state::{DeviceView, NvImageView, nv_image, nv_table};

verus! {

/// All bytes that an ESC command looks at are there.
pub open spec fn esc_whole(s: Seq<u8>) -> bool {
    match s[1] {
        ESC_INITIALIZE | ESC_OLD_CUT | ESC_DEFAULT_SPACING | ESC_HOME | ESC_BIT_IMAGE => true,
        ESC_POSITION | ESC_MOVE | ESC_SENSOR => s.len() >= 4,
        ESC_DRAWER | ESC_EXTENDED | ESC_DEFINE_CHARS => s.len() >= 5,
        ESC_IMAGE_K | ESC_IMAGE_L => s.len() >= 4 && 4 + le16(s, 2) <= s.len(),
        ESC_IMAGE_Y | ESC_IMAGE_Z => s.len() >= 4 && 4 + 2 * le16(s, 2) <= s.len(),
        ESC_TAB_STOPS => nul_at(s, 2) < s.len(),
        ESC_PAGE_AREA => s.len() >= 10,
        _ => s.len() >= 3,
    }
}

/// All bytes that `GS k` looks at are there.
pub open spec fn barcode_whole(s: Seq<u8>) -> bool {
    if nul_terminated_system(s[2]) {
        nul_at(s, 3) < s.len()
    } else if counted_system(s[2]) {
        s.len() > 3 && 4 + s[3] <= s.len()
    } else {
        true
    }
}

/// All bytes that `GS ( k` looks at are there.
pub open spec fn symbol_whole(s: Seq<u8>) -> bool {
    &&& s.len() > 6
    &&& if symbol_stores(s[5], s[6]) {
        true
    } else if symbol_sets(s[5], s[6]) {
        s.len() > 7
    } else {
        7 + minus(le16(s, 3), 2) <= s.len()
    }
}

/// All bytes that `GS 8` looks at are there.
pub open spec fn extended_long_whole(s: Seq<u8>) -> bool {
    s[2] == GS_8_GRAPHICS ==> s.len() > 12 && (graphics_stores(s) || 13 + minus(le32(s, 3), 6)
        <= s.len())
}

/// All bytes that a GS command looks at are there.
pub open spec fn gs_whole(s: Seq<u8>) -> bool {
    &&& s.len() >= 3
    &&& match s[1] {
        GS_EXTENDED_LONG => extended_long_whole(s),
        GS_LEFT_MARGIN | GS_AREA_WIDTH | GS_VERTICAL => s.len() >= 4,
        GS_BARCODE => barcode_whole(s),
        GS_EXTENDED => if s[2] == GS_PAREN_SYMBOL {
            symbol_whole(s)
        } else {
            s.len() >= 5
        },
        _ => true,
    }
}

/// All bytes of `count` NV images from `pos` on are there.
pub open spec fn nv_whole(s: Seq<u8>, pos: int, count: nat) -> bool
    decreases count,
{
    count == 0 || {
        &&& pos + 4 <= s.len()
        &&& pos + 4 + nv_bytes(s, pos) <= s.len()
        &&& nv_whole(s, pos + 4 + nv_bytes(s, pos), (count - 1) as nat)
    }
}

/// All bytes that an FS command looks at are there.
pub open spec fn fs_whole(s: Seq<u8>) -> bool {
    &&& s.len() >= 3
    &&& match s[1] {
        FS_PRINT_NV => s.len() >= 4,
        FS_DEFINE_NV => nv_whole(s, 3, s[2] as nat),
        FS_EXTENDED => s.len() >= 6 && 5 + le16(s, 3) <= s.len(),
        FS_WIDE_OFF | FS_CODE_SYSTEM | FS_MEMORY | FS_PRINT_MODE | FS_WIDE_ON | FS_SPACING
        | FS_UNDERLINE => true,
        _ => fs_parameter(s[2]) && s[2] > 0x7F ==> s.len() >= 4,
    }
}

/// All bytes that the command at the front of `s` looks at are there.
#[verifier::opaque]
pub open spec fn whole(s: Seq<u8>) -> bool {
    if opens_command(s[0]) {
        &&& s.len() >= 2
        &&& if s[0] == ESC {
            esc_whole(s)
        } else if s[0] == GS {
            gs_whole(s)
        } else if s[0] == FS {
            fs_whole(s)
        } else if s[1] == EOT || s[1] == ENQ {
            s.len() >= 3
        } else {
            s[1] == DC4 ==> s.len() >= 4
        }
    } else if s[0] == DC2 {
        s.len() >= 2 && (s[1] == DC2_DENSITY ==> s.len() >= 3)
    } else {
        true
    }
}

/// Every command of the stream that is carried out has all its bytes.
pub open spec fn whole_commands(s: Seq<u8>) -> bool
    decreases s.len(),
{
    if s.len() == 0 {
        true
    } else {
        proof {
            span_bounds(s);
        }
        match span(s) {
            Span::Ends(e) => whole(s) && whole_commands(s.skip(e)),
            Span::Incomplete => true,
            Span::Overrun => false,
        }
    }
}

proof fn lemma_subrange_concat(s: Seq<u8>, more: Seq<u8>, from: int, to: int)
    requires
        0 <= from <= to <= s.len(),
    ensures
        (s + more).subrange(from, to) == s.subrange(from, to),
{
    assert((s + more).subrange(from, to) =~= s.subrange(from, to));
}

proof fn lemma_nul_concat(s: Seq<u8>, more: Seq<u8>, k: int)
    requires
        0 <= k <= s.len(),
        nul_at(s, k) < s.len(),
    ensures
        nul_at(s + more, k) == nul_at(s, k),
    decreases s.len() - k,
{
    if k < s.len() && s[k] != 0 {
        lemma_nul_concat(s, more, k + 1);
    }
}

proof fn lemma_esc_whole(s: Seq<u8>, more: Seq<u8>)
    requires
        s.len() >= 2,
        esc_span(s) is Ends,
        esc_whole(s),
    ensures
        esc_span(s + more) == esc_span(s),
        esc_command(s + more) == esc_command(s),
{
    esc_span_bounds(s);
    if s[1] == ESC_TAB_STOPS {
        lemma_nul_at(s, 2);
        lemma_nul_concat(s, more, 2);
    }
    if s[1] == ESC_BIT_IMAGE && column_image_valid(s) {
        lemma_product16(le16(s, 3), column_height(s[2]) / 8);
        lemma_subrange_concat(s, more, 5, 5 + le16(s, 3) * (column_height(s[2]) / 8));
    }
}

proof fn lemma_gs_whole(s: Seq<u8>, more: Seq<u8>)
    requires
        s.len() >= 2,
        gs_span(s) is Ends,
        gs_whole(s),
    ensures
        gs_span(s + more) == gs_span(s),
        gs_command(s + more) == gs_command(s),
{
    gs_span_bounds(s);
    if s[1] == GS_BARCODE {
        lemma_nul_at(s, 3);
        if nul_terminated_system(s[2]) {
            lemma_nul_concat(s, more, 3);
            lemma_subrange_concat(s, more, 3, nul_at(s, 3));
        } else if counted_system(s[2]) {
            lemma_subrange_concat(s, more, 4, 4 + s[3]);
        }
    } else if s[1] == GS_RASTER {
        lemma_product16(le16(s, 4), le16(s, 6));
        if raster_prints(s) {
            lemma_subrange_concat(s, more, 8, 8 + raster_bytes(s));
        }
    } else if s[1] == GS_EXTENDED_LONG && s[2] == GS_8_GRAPHICS {
        if graphics_prints(s) {
            lemma_product16(ceil_div(le16(s, 13), 8), le16(s, 15));
            lemma_subrange_concat(s, more, 17, 17 + graphics_bytes(s));
        }
    } else if s[1] == GS_EXTENDED && s[2] == GS_PAREN_SYMBOL {
        if symbol_stores(s[5], s[6]) {
            lemma_subrange_concat(s, more, 8, 8 + stored_bytes(s));
        }
    }
}

proof fn lemma_nv_whole(
    s: Seq<u8>,
    more: Seq<u8>,
    images: Map<u8, NvImageView>,
    pos: int,
    slot: int,
    count: nat,
)
    requires
        0 <= pos <= s.len(),
        nv_whole(s, pos, count),
    ensures
        nv_end(s + more, pos, count) == nv_end(s, pos, count),
        nv_table(images, s + more, pos, slot, count) == nv_table(images, s, pos, slot, count),
    decreases count,
{
    if count > 0 {
        let t = s + more;
        let bytes = nv_bytes(s, pos);
        lemma_product16(le16(s, pos), le16(s, pos + 2));
        assert(nv_bytes(t, pos) == bytes);
        lemma_subrange_concat(s, more, pos + 4, pos + 4 + bytes);
        let next = if 0 < bytes {
            images.insert(slot as u8, nv_image(s, pos))
        } else {
            images
        };
        lemma_nv_whole(s, more, next, pos + 4 + bytes, slot + 1, (count - 1) as nat);
    }
}

proof fn lemma_fs_whole(s: Seq<u8>, more: Seq<u8>)
    requires
        s.len() >= 2,
        fs_span(s) is Ends,
        fs_whole(s),
    ensures
        fs_span(s + more) == fs_span(s),
        fs_command(s + more) == fs_command(s),
{
    if s[1] == FS_DEFINE_NV {
        lemma_nv_whole(s, more, Map::empty(), 3, 1, s[2] as nat);
    }
}

/// A command that has all its bytes is the same command whatever follows it.
pub proof fn whole_command_is_settled(s: Seq<u8>, more: Seq<u8>)
    requires
        s.len() > 0,
        span(s) is Ends,
        whole(s),
    ensures
        span(s + more) == span(s),
        command(s + more) == command(s),
{
    reveal(span);
    reveal(whole);
    reveal(command);
    if s[0] == ESC {
        lemma_esc_whole(s, more);
    } else if s[0] == GS {
        lemma_gs_whole(s, more);
    } else if s[0] == FS {
        lemma_fs_whole(s, more);
    }
}

/// The renderer with another answer to what it waits for.
spec fn rewait(r: RendererView, b: bool, p: Seq<u8>) -> RendererView {
    RendererView { in_command: b, pending: p, ..r }
}

proof fn lemma_rewait_line(r: RendererView, b: bool, p: Seq<u8>)
    ensures
        print_line(rewait(r, b, p)) == rewait(print_line(r), b, p),
        finish_line(rewait(r, b, p)) == rewait(finish_line(r), b, p),
        feed_line(rewait(r, b, p)) == rewait(feed_line(r), b, p),
{
}

proof fn lemma_rewait_feed(r: RendererView, b: bool, p: Seq<u8>, n: nat)
    ensures
        feed_lines(rewait(r, b, p), n) == rewait(feed_lines(r, n), b, p),
    decreases n,
{
    if n > 0 {
        lemma_rewait_line(r, b, p);
        lemma_rewait_feed(feed_line(r), b, p, (n - 1) as nat);
    }
}

proof fn lemma_rewait_symbol(
    r: RendererView,
    b: bool,
    p: Seq<u8>,
    data: Seq<u8>,
    variant: Barcode2DVariant,
    module_size: u8,
)
    ensures
        print_symbol(rewait(r, b, p), data, variant, module_size) == rewait(
            print_symbol(r, data, variant, module_size),
            b,
            p,
        ),
        print_qr(rewait(r, b, p)) == rewait(print_qr(r), b, p),
{
    lemma_rewait_line(r, b, p);
}

proof fn lemma_rewait_image(
    r: RendererView,
    b: bool,
    p: Seq<u8>,
    width: int,
    height: int,
    bytes_per_line: int,
    data: Seq<u8>,
)
    ensures
        print_image(rewait(r, b, p), width, height, bytes_per_line, data) == rewait(
            print_image(r, width, height, bytes_per_line, data),
            b,
            p,
        ),
{
    lemma_rewait_line(r, b, p);
}

/// Only text and tabs look at whether a command is under way, and no command
/// looks at the bytes that wait.
#[verifier::rlimit(30)]
proof fn lemma_rewait_apply(r: RendererView, d: DeviceView, c: Command, b: bool, p: Seq<u8>)
    requires
        b == r.in_command || !(c is Text || c is Tab),
    ensures
        apply(rewait(r, b, p), d, c) == rewait(
            apply(r, d, c),
            if c is LineFeed || c is CarriageReturn {
                false
            } else {
                b
            },
            p,
        ),
{
    lemma_rewait_line(r, b, p);
    match c {
        Command::LineFeed | Command::CarriageReturn => {
            lemma_rewait_line(
                RendererView { in_command: false, after_binary: false, ..r },
                false,
                p,
            );
        },
        Command::FeedLines(n) => {
            lemma_rewait_feed(r, b, p, n as nat);
        },
        Command::Image { width, height, bytes_per_line, data, dumped } => {
            lemma_rewait_image(r, b, p, width, height, bytes_per_line, data);
        },
        Command::PrintNv(slot) => {
            let image = d.nv_images[slot];
            lemma_rewait_image(
                r,
                b,
                p,
                image.width,
                image.height,
                ceil_div(image.width, 8),
                image.data,
            );
        },
        Command::PrintPdf417 => {
            lemma_rewait_symbol(
                r,
                b,
                p,
                r.pdf417_data,
                Barcode2DVariant::Pdf417,
                r.symbols.pdf417_module_width,
            );
        },
        Command::PrintDataMatrix => {
            lemma_rewait_symbol(
                r,
                b,
                p,
                r.datamatrix_data,
                Barcode2DVariant::DataMatrix,
                r.symbols.datamatrix_module_size,
            );
        },
        Command::PrintQr => {
            lemma_rewait_symbol(r, b, p, Seq::empty(), Barcode2DVariant::Pdf417, 1);
        },
        _ => {},
    }
}

proof fn lemma_opened_command(s: Seq<u8>)
    requires
        s.len() > 0,
        opens_command(s[0]),
    ensures
        !(command(s) is Text),
        !(command(s) is Tab),
{
    reveal(command);
}

/// A command that has been waited for is carried out as if it had not.
proof fn lemma_run_waiting(m: Machine, s: Seq<u8>, t: Seq<u8>)
    requires
        s.len() > 0,
        t.len() > 0,
        t[0] == s[0],
        well_framed(t),
    ensures
        run(waiting(m, s), t) == run(m, t),
{
    if opens_command(s[0]) {
        let w = waiting(m, s);
        if span(t) is Ends {
            lemma_opened_command(t);
            let r = m.renderer;
            reveal(step);
            lemma_rewait_apply(r, m.device, command(t), true, r.pending);
            lemma_rewait_apply(r, m.device, command(t), r.in_command, r.pending);
            assert(rewait(r, r.in_command, r.pending) == r);
            assert(step(w, t) == step(m, t));
        }
    }
}

proof fn lemma_run_split(m: Machine, s: Seq<u8>, more: Seq<u8>)
    requires
        whole_commands(s),
        well_framed(s + more),
    ensures
        run(run(m, s), leftover(s) + more) == run(m, s + more),
        leftover(leftover(s) + more) == leftover(s + more),
        well_framed(leftover(s) + more),
    decreases s.len(),
{
    let t = s + more;
    if s.len() > 0 {
        span_bounds(s);
        match span(s) {
            Span::Ends(e) => {
                whole_command_is_settled(s, more);
                assert(t.skip(e) =~= s.skip(e) + more);
                assert(step(m, t) == step(m, s)) by {
                    reveal(step);
                    reveal(span);
                }
                lemma_run_split(step(m, s), s.skip(e), more);
            },
            _ => {
                lemma_run_waiting(m, s, t);
            },
        }
    }
}

/// The printer with other bytes that wait.
spec fn with_pending(m: Machine, p: Seq<u8>) -> Machine {
    Machine { renderer: RendererView { pending: p, ..m.renderer }, ..m }
}

/// Where a stream is cut does not matter, as long as no command is cut off from
/// parameters that it does not wait for: two pieces do what both do at once.
pub proof fn pieces_add_up(m: Machine, first: Seq<u8>, second: Seq<u8>)
    requires
        whole_commands(m.renderer.pending + first),
        well_framed(m.renderer.pending + (first + second)),
    ensures
        feed(feed(m, first), second) == feed(m, first + second),
        well_framed(feed(m, first).renderer.pending + second),
{
    let s = m.renderer.pending + first;
    assert(m.renderer.pending + (first + second) =~= s + second);
    lemma_run_split(m, s, second);
    lemma_run_pending(run(m, s), leftover(s), leftover(s) + second);
}

proof fn lemma_run_pending(m: Machine, p: Seq<u8>, s: Seq<u8>)
    ensures
        run(with_pending(m, p), s) == with_pending(run(m, s), p),
    decreases s.len(),
{
    if s.len() > 0 {
        span_bounds(s);
        let q = with_pending(m, p);
        if let Span::Ends(e) = span(s) {
            let r = m.renderer;
            lemma_rewait_apply(r, m.device, command(s), r.in_command, p);
            lemma_rewait_apply(r, m.device, command(s), r.in_command, r.pending);
            assert(rewait(r, r.in_command, r.pending) == r);
            let n = step(m, s);
            reveal(step);
            assert(step(q, s) == with_pending(n, p));
            lemma_run_pending(n, p, s.skip(e));
        }
    }
}

/// Bytes that are commands on their own: text and most control characters.
pub open spec fn plain(s: Seq<u8>) -> bool {
    forall|k: int| 0 <= k < s.len() ==> !opens_command(#[trigger] s[k]) && s[k] != DC2
}

proof fn lemma_plain_whole(s: Seq<u8>)
    requires
        plain(s),
    ensures
        whole_commands(s),
        well_framed(s),
    decreases s.len(),
{
    if s.len() > 0 {
        reveal(span);
        reveal(whole);
        if s.len() > 1 || !is_text(s[0]) {
            let rest = s.skip(1);
            assert forall|k: int| 0 <= k < rest.len() implies !opens_command(#[trigger] rest[k])
                && rest[k] != DC2 by {
                assert(rest[k] == s[k + 1]);
            }
            lemma_plain_whole(rest);
        }
    }
}

/// Text may be cut anywhere: a line that arrives in two pieces is not printed in
/// two pieces.
pub proof fn text_pieces_add_up(m: Machine, first: Seq<u8>, second: Seq<u8>)
    requires
        plain(m.renderer.pending),
        plain(first),
        plain(second),
    ensures
        feed(feed(m, first), second) == feed(m, first + second),
{
    lemma_plain_whole(m.renderer.pending + first);
    lemma_plain_whole(m.renderer.pending + (first + second));
    pieces_add_up(m, first, second);
}

} // verus!
