//! What was printed stays printed, and when it is taken matters little.

use vstd::prelude::*;
use crate::codepage::line_text;
use crate::codes::ceil_div;
use crate::element::{Barcode2DVariant, ElementView};
use crate::framing::{Span, span, span_bounds};
use crate::model::{
    Command, DumpView, Machine, RendererView, apply, automatic_status, command, cut_name, feed,
    feed_line, feed_lines, finish_line, identification, image_element, print_element, print_image,
    print_line, print_qr, print_symbol, run, separators, separators_for, step,
};
use crate::state::{DeviceView, log_entry, real_time_status, text_element, transmitted_status};

verus! {

proof fn lemma_prefix_push<A>(base: Seq<A>, a: Seq<A>, e: A)
    requires
        base.is_prefix_of(a),
    ensures
        base.is_prefix_of(a.push(e)),
{
    assert(a.push(e).subrange(0, base.len() as int) =~= base);
}

proof fn lemma_prefix_concat<A>(base: Seq<A>, a: Seq<A>, b: Seq<A>)
    requires
        base.is_prefix_of(a),
    ensures
        base.is_prefix_of(a + b),
{
    assert((a + b).subrange(0, base.len() as int) =~= base);
}

/// What a command adds to the output comes behind what was there.
pub open spec fn output_grows(a: RendererView, b: RendererView) -> bool {
    &&& a.elements.is_prefix_of(b.elements)
    &&& a.responses.is_prefix_of(b.responses)
    &&& a.dumps.is_prefix_of(b.dumps)
}

proof fn lemma_finish_line_grows(a: RendererView, r: RendererView)
    requires
        output_grows(a, r),
    ensures
        output_grows(a, print_line(r)),
        output_grows(a, finish_line(r)),
        output_grows(a, feed_line(r)),
{
    lemma_prefix_push(
        a.elements,
        r.elements,
        text_element(r.state, line_text(r.state.code_page, r.state.encoding, r.line)),
    );
    lemma_prefix_push(a.elements, r.elements, ElementView::Separator);
}

proof fn lemma_feed_lines_grows(a: RendererView, r: RendererView, n: nat)
    requires
        output_grows(a, r),
    ensures
        output_grows(a, feed_lines(r, n)),
    decreases n,
{
    if n > 0 {
        lemma_finish_line_grows(a, r);
        lemma_feed_lines_grows(a, feed_line(r), (n - 1) as nat);
    }
}

proof fn lemma_print_grows(a: RendererView, r: RendererView, e: ElementView)
    requires
        output_grows(a, r),
    ensures
        output_grows(a, print_element(finish_line(r), e)),
{
    lemma_finish_line_grows(a, r);
    lemma_prefix_push(a.elements, finish_line(r).elements, e);
}

proof fn lemma_apply_grows(r: RendererView, d: DeviceView, c: Command)
    ensures
        output_grows(r, apply(r, d, c)),
{
    let f = finish_line(r);
    lemma_grows_reflexive(r);
    let q = RendererView { in_command: false, after_binary: false, ..r };
    lemma_finish_line_grows(r, r);
    match c {
        Command::LineFeed | Command::CarriageReturn => {
            lemma_finish_line_grows(r, q);
        },
        Command::FormFeed => {
            lemma_prefix_push(r.elements, r.elements, ElementView::FormFeed);
        },
        Command::RealTimeStatus => {
            lemma_prefix_push(r.responses, r.responses, real_time_status(d.status));
        },
        Command::FeedLines(n) => {
            lemma_feed_lines_grows(r, r, n as nat);
        },
        Command::FeedDots(n) => {
            lemma_prefix_concat(r.elements, f.elements, separators(separators_for(n) as nat));
        },
        Command::OpenDrawer { pin, on_time, off_time } => {
            lemma_prefix_push(
                r.elements,
                r.elements,
                ElementView::CashDrawer { pin, on_time, off_time },
            );
        },
        Command::Barcode { .. } => {
            lemma_print_grows(r, r, apply(r, d, c).elements.last());
        },
        Command::StatusBack(flags) => {
            lemma_prefix_concat(r.responses, r.responses, automatic_status(d.status));
        },
        Command::Identify(n) => {
            lemma_prefix_concat(r.responses, r.responses, identification(n));
        },
        Command::TransmitStatus => {
            lemma_prefix_push(r.responses, r.responses, transmitted_status(d.status));
        },
        Command::Cut(mode) => {
            lemma_prefix_push(
                r.elements,
                print_line(r).elements,
                ElementView::PaperCut { cut_type: cut_name(mode) },
            );
        },
        Command::Image { width, height, bytes_per_line, data, dumped } => {
            lemma_print_grows(
                r,
                r,
                image_element(f.state, width, height, bytes_per_line, data),
            );
            lemma_prefix_push(r.dumps, r.dumps, DumpView { width, height, data });
        },
        Command::PrintPdf417 | Command::PrintDataMatrix | Command::PrintQr
        | Command::PrintNv(_) => {
            lemma_print_grows(r, r, apply(r, d, c).elements.last());
        },
        _ => {},
    }
}

proof fn lemma_step_grows(m: Machine, s: Seq<u8>)
    ensures
        output_grows(m.renderer, step(m, s).renderer),
        m.device.log.is_prefix_of(step(m, s).device.log),
{
    reveal(step);
    lemma_apply_grows(m.renderer, m.device, command(s));
    lemma_prefix_reflexive(m.device.log);
    lemma_prefix_push(m.device.log, m.device.log, log_entry(s[0], s[1]));
}

proof fn lemma_run_grows(m: Machine, s: Seq<u8>)
    ensures
        output_grows(m.renderer, run(m, s).renderer),
        m.device.log.is_prefix_of(run(m, s).device.log),
    decreases s.len(),
{
    lemma_grows_reflexive(m.renderer);
    lemma_prefix_reflexive(m.device.log);
    if s.len() > 0 {
        span_bounds(s);
        if let Span::Ends(e) = span(s) {
            lemma_step_grows(m, s);
            lemma_run_grows(step(m, s), s.skip(e));
            lemma_grows_transitive(m.renderer, step(m, s).renderer, run(m, s).renderer);
            lemma_prefix_transitive(
                m.device.log,
                step(m, s).device.log,
                run(m, s).device.log,
            );
        }
    }
}

proof fn lemma_prefix_reflexive<A>(a: Seq<A>)
    ensures
        a.is_prefix_of(a),
{
    assert(a.subrange(0, a.len() as int) =~= a);
}

proof fn lemma_prefix_transitive<A>(a: Seq<A>, b: Seq<A>, c: Seq<A>)
    requires
        a.is_prefix_of(b),
        b.is_prefix_of(c),
    ensures
        a.is_prefix_of(c),
{
    assert(c.subrange(0, a.len() as int) =~= c.subrange(0, b.len() as int).subrange(
        0,
        a.len() as int,
    ));
}

proof fn lemma_grows_reflexive(r: RendererView)
    ensures
        output_grows(r, r),
{
    lemma_prefix_reflexive(r.elements);
    lemma_prefix_reflexive(r.responses);
    lemma_prefix_reflexive(r.dumps);
}

proof fn lemma_grows_transitive(a: RendererView, b: RendererView, c: RendererView)
    requires
        output_grows(a, b),
        output_grows(b, c),
    ensures
        output_grows(a, c),
{
    lemma_prefix_transitive(a.elements, b.elements, c.elements);
    lemma_prefix_transitive(a.responses, b.responses, c.responses);
    lemma_prefix_transitive(a.dumps, b.dumps, c.dumps);
}

/// Nothing that was printed, queued or logged is ever changed by bytes that
/// arrive later.
pub proof fn output_only_grows(m: Machine, bytes: Seq<u8>)
    ensures
        output_grows(m.renderer, feed(m, bytes).renderer),
        m.device.log.is_prefix_of(feed(m, bytes).device.log),
{
    lemma_run_grows(m, m.renderer.pending + bytes);
}

/// The elements that take up a horizontal offset.
pub open spec fn is_placed(e: ElementView) -> bool {
    e is Text || e is RasterImage || e is QrCode || e is Barcode || e is Barcode2D
}

proof fn lemma_feed_lines_offset(r: RendererView, n: nat)
    ensures
        ({
            let after = feed_lines(r, n);
            after.elements.len() > r.elements.len() && is_placed(after.elements.last())
                ==> after.state.horizontal_offset == 0
        }),
        feed_lines(r, n).elements.len() >= r.elements.len(),
        feed_lines(r, n).elements.len() == r.elements.len() ==> feed_lines(r, n) == r,
    decreases n,
{
    if n > 0 {
        lemma_feed_lines_offset(feed_line(r), (n - 1) as nat);
    }
}

proof fn lemma_print_line_offset(r: RendererView)
    ensures
        print_line(r).elements.len() > r.elements.len() ==> print_line(r).state.horizontal_offset
            == 0,
        finish_line(r).elements == print_line(r).elements,
        finish_line(r).state == print_line(r).state,
        feed_line(r).elements.len() > r.elements.len() && is_placed(feed_line(r).elements.last())
            ==> feed_line(r).state.horizontal_offset == 0,
{
}

/// A horizontal offset is used once: a command that prints something in a place
/// of its own leaves no offset for what comes next.
pub proof fn offset_is_used_once(r: RendererView, d: DeviceView, c: Command)
    requires
        apply(r, d, c).elements.len() > r.elements.len(),
        is_placed(apply(r, d, c).elements.last()),
    ensures
        apply(r, d, c).state.horizontal_offset == 0,
{
    let q = RendererView { in_command: false, after_binary: false, ..r };
    match c {
        Command::LineFeed | Command::CarriageReturn => {
            lemma_print_line_offset(q);
        },
        Command::FeedLines(n) => {
            lemma_feed_lines_offset(r, n as nat);
        },
        Command::FeedDots(n) => {
            let f = finish_line(r);
            let k = separators_for(n) as nat;
            lemma_print_line_offset(r);
            if k > 0 {
                assert((f.elements + separators(k)).last() == separators(k).last());
            } else {
                assert(f.elements + separators(k) =~= f.elements);
            }
        },
        Command::Cut(mode) => {
            assert(apply(r, d, c).elements.last() is PaperCut);
        },
        Command::PrintPdf417 => {
            assert(r.pdf417_data.len() > 0);
        },
        Command::PrintDataMatrix => {
            assert(r.datamatrix_data.len() > 0);
        },
        Command::PrintQr => {
            assert(r.qr_data.len() > 0);
        },
        _ => {},
    }
}

/// The renderer with other elements that were not taken yet.
pub open spec fn with_elements(r: RendererView, elements: Seq<ElementView>) -> RendererView {
    RendererView { elements, ..r }
}

/// The renderer behind elements that were taken.
pub open spec fn behind(taken: Seq<ElementView>, r: RendererView) -> RendererView {
    with_elements(r, taken + r.elements)
}

/// The commands that look at what was printed before: a blank line needs
/// something above it, and a form feed must not follow another.
pub open spec fn looks_back(r: RendererView, c: Command) -> bool {
    match c {
        Command::LineFeed => r.line.len() == 0,
        Command::FeedLines(n) => n > 1 || r.line.len() == 0,
        Command::FormFeed => true,
        _ => false,
    }
}

proof fn lemma_behind_push(taken: Seq<ElementView>, elements: Seq<ElementView>, e: ElementView)
    ensures
        taken + elements.push(e) == (taken + elements).push(e),
{
    assert(taken + elements.push(e) =~= (taken + elements).push(e));
}

proof fn lemma_behind_line(taken: Seq<ElementView>, r: RendererView)
    ensures
        print_line(behind(taken, r)) == behind(taken, print_line(r)),
        finish_line(behind(taken, r)) == behind(taken, finish_line(r)),
        r.line.len() > 0 ==> feed_line(behind(taken, r)) == behind(taken, feed_line(r)),
{
    lemma_behind_push(
        taken,
        r.elements,
        text_element(r.state, line_text(r.state.code_page, r.state.encoding, r.line)),
    );
}

proof fn lemma_behind_element(taken: Seq<ElementView>, r: RendererView, e: ElementView)
    ensures
        print_element(finish_line(behind(taken, r)), e) == behind(
            taken,
            print_element(finish_line(r), e),
        ),
{
    lemma_behind_line(taken, r);
    lemma_behind_push(taken, finish_line(r).elements, e);
}

proof fn lemma_behind_symbol(
    taken: Seq<ElementView>,
    r: RendererView,
    data: Seq<u8>,
    variant: Barcode2DVariant,
    module_size: u8,
)
    ensures
        print_symbol(behind(taken, r), data, variant, module_size) == behind(
            taken,
            print_symbol(r, data, variant, module_size),
        ),
{
    lemma_behind_line(taken, r);
    lemma_behind_element(taken, r, print_symbol(r, data, variant, module_size).elements.last());
}

proof fn lemma_behind_qr(taken: Seq<ElementView>, r: RendererView)
    ensures
        print_qr(behind(taken, r)) == behind(taken, print_qr(r)),
{
    lemma_behind_line(taken, r);
    lemma_behind_element(taken, r, print_qr(r).elements.last());
}

proof fn lemma_behind_image(
    taken: Seq<ElementView>,
    r: RendererView,
    width: int,
    height: int,
    bytes_per_line: int,
    data: Seq<u8>,
)
    ensures
        print_image(behind(taken, r), width, height, bytes_per_line, data) == behind(
            taken,
            print_image(r, width, height, bytes_per_line, data),
        ),
{
    lemma_behind_line(taken, r);
    lemma_behind_element(
        taken,
        r,
        image_element(finish_line(r).state, width, height, bytes_per_line, data),
    );
}

#[verifier::rlimit(30)]
proof fn lemma_behind_paper(taken: Seq<ElementView>, r: RendererView, d: DeviceView, c: Command)
    requires
        !looks_back(r, c),
        c is LineFeed || c is CarriageReturn || c is FeedLines || c is FeedDots || c is OpenDrawer
            || c is Cut || c is Barcode,
    ensures
        apply(behind(taken, r), d, c) == behind(taken, apply(r, d, c)),
{
    let f = finish_line(r);
    lemma_behind_line(taken, r);
    match c {
        Command::LineFeed | Command::CarriageReturn => {
            lemma_behind_line(
                taken,
                RendererView { in_command: false, after_binary: false, ..r },
            );
        },
        Command::FeedLines(n) => {
            if n == 1 {
                assert(feed_lines(feed_line(r), 0) == feed_line(r));
                assert(feed_lines(feed_line(behind(taken, r)), 0) == feed_line(behind(taken, r)));
            }
        },
        Command::FeedDots(n) => {
            let k = separators_for(n) as nat;
            assert(taken + (f.elements + separators(k)) =~= (taken + f.elements) + separators(k));
        },
        Command::OpenDrawer { pin, on_time, off_time } => {
            lemma_behind_push(
                taken,
                r.elements,
                ElementView::CashDrawer { pin, on_time, off_time },
            );
        },
        Command::Cut(mode) => {
            lemma_behind_push(
                taken,
                print_line(r).elements,
                ElementView::PaperCut { cut_type: cut_name(mode) },
            );
        },
        _ => {
            lemma_behind_element(taken, r, apply(r, d, c).elements.last());
        },
    }
}

proof fn lemma_behind_pdf417(taken: Seq<ElementView>, r: RendererView, d: DeviceView)
    ensures
        apply(behind(taken, r), d, Command::PrintPdf417) == behind(
            taken,
            apply(r, d, Command::PrintPdf417),
        ),
{
    lemma_behind_symbol(
        taken,
        r,
        r.pdf417_data,
        Barcode2DVariant::Pdf417,
        r.symbols.pdf417_module_width,
    );
}

proof fn lemma_behind_datamatrix(taken: Seq<ElementView>, r: RendererView, d: DeviceView)
    ensures
        apply(behind(taken, r), d, Command::PrintDataMatrix) == behind(
            taken,
            apply(r, d, Command::PrintDataMatrix),
        ),
{
    lemma_behind_symbol(
        taken,
        r,
        r.datamatrix_data,
        Barcode2DVariant::DataMatrix,
        r.symbols.datamatrix_module_size,
    );
}

proof fn lemma_behind_nv(taken: Seq<ElementView>, r: RendererView, d: DeviceView, slot: u8)
    ensures
        apply(behind(taken, r), d, Command::PrintNv(slot)) == behind(
            taken,
            apply(r, d, Command::PrintNv(slot)),
        ),
{
    let image = d.nv_images[slot];
    lemma_behind_image(
        taken,
        r,
        image.width,
        image.height,
        ceil_div(image.width, 8),
        image.data,
    );
}

/// Taking elements out does not change what is printed later, but for the
/// commands that look at what was printed before.
pub proof fn taking_changes_no_later_output(
    taken: Seq<ElementView>,
    r: RendererView,
    d: DeviceView,
    c: Command,
)
    requires
        !looks_back(r, c),
    ensures
        apply(behind(taken, r), d, c) == behind(taken, apply(r, d, c)),
{
    match c {
        Command::LineFeed
        | Command::CarriageReturn
        | Command::FeedLines(_)
        | Command::FeedDots(_)
        | Command::OpenDrawer { .. }
        | Command::Cut(_)
        | Command::Barcode { .. } => lemma_behind_paper(taken, r, d, c),
        Command::Image { width, height, bytes_per_line, data, .. } => lemma_behind_image(
            taken,
            r,
            width,
            height,
            bytes_per_line,
            data,
        ),
        Command::PrintPdf417 => lemma_behind_pdf417(taken, r, d),
        Command::PrintDataMatrix => lemma_behind_datamatrix(taken, r, d),
        Command::PrintQr => lemma_behind_qr(taken, r),
        Command::PrintNv(slot) => lemma_behind_nv(taken, r, d, slot),
        _ => {},
    }
}

} // verus!
