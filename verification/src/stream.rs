//! The byte stream, command by command: what follows a command is read as if the
//! command had been sent alone.

use vstd::prelude::*;
use crate::framing::{Span, esc_span, fs_span, gs_span, span};
use crate::laws::logged;
use crate::model::{
    Command, Machine, RendererView, apply, apply_device, command, esc_command, feed, fs_command,
    gs_command, is_logged, step,
};
use crate::state::{Setting, SymbolSetting, with_setting, with_symbol_setting};

verus! {

/// Nothing sent is nothing done.
pub proof fn nothing_sent_is_nothing(m: Machine)
    requires
        m.renderer.pending.len() == 0,
    ensures
        feed(m, Seq::empty()) == m,
{
    assert(m.renderer.pending + Seq::<u8>::empty() =~= Seq::empty());
    assert(m.renderer.pending =~= Seq::empty());
}

/// How ESC commands are read.
pub(crate) proof fn lemma_esc_stream()
    ensures
        forall|s: Seq<u8>|
            s.len() >= 2 && s[0] == 0x1B ==> #[trigger] span(s) == esc_span(s),
        forall|s: Seq<u8>|
            s.len() >= 2 && s[0] == 0x1B ==> #[trigger] command(s) == esc_command(s),
{
    reveal(span);
    reveal(command);
}

/// How FS commands are read.
pub(crate) proof fn lemma_fs_stream()
    ensures
        forall|s: Seq<u8>|
            s.len() >= 2 && s[0] == 0x1C ==> #[trigger] span(s) == fs_span(s),
        forall|s: Seq<u8>|
            s.len() >= 2 && s[0] == 0x1C ==> #[trigger] command(s) == fs_command(s),
{
    reveal(span);
    reveal(command);
}

/// How GS commands are read.
pub(crate) proof fn lemma_gs_stream()
    ensures
        forall|s: Seq<u8>|
            s.len() >= 2 && s[0] == 0x1D ==> #[trigger] span(s) == gs_span(s),
        forall|s: Seq<u8>|
            s.len() >= 2 && s[0] == 0x1D ==> #[trigger] command(s) == gs_command(s),
{
    reveal(span);
    reveal(command);
}

/// A complete command in front of `rest` does its work, and `rest` is read on from
/// there.
pub(crate) proof fn lemma_first_command(m: Machine, s: Seq<u8>, rest: Seq<u8>)
    requires
        m.renderer.pending.len() == 0,
        s.len() > 0,
        span(s + rest) == Span::Ends(s.len() as int),
        step(m, s + rest).renderer.pending == m.renderer.pending,
    ensures
        feed(m, s + rest) == feed(step(m, s + rest), rest),
{
    let t = s + rest;
    assert(m.renderer.pending + t =~= t);
    assert(m.renderer.pending + rest =~= rest);
    assert(t.skip(s.len() as int) =~= rest);
}

/// An ESC, GS or FS command in front of `rest`.
pub(crate) proof fn lemma_effect(m: Machine, s: Seq<u8>, rest: Seq<u8>)
    requires
        m.renderer.pending.len() == 0,
        s.len() > 1,
        is_logged(s[0]),
        span(s + rest) == Span::Ends(s.len() as int),
        apply(m.renderer, m.device, command(s + rest)).pending == m.renderer.pending,
    ensures
        feed(m, s + rest) == feed(
            logged(
                (Machine {
                    renderer: RendererView {
                        in_command: false,
                        ..apply(m.renderer, m.device, command(s + rest))
                    },
                    device: apply_device(m.device, command(s + rest)),
                }),
                s[0],
                s[1],
            ),
            rest,
        ),
{
    reveal(step);
    assert((s + rest)[0] == s[0] && (s + rest)[1] == s[1]);
    lemma_first_command(m, s, rest);
}

/// A logged command that changes the formatting, in front of `rest`.
pub(crate) proof fn lemma_format(m: Machine, s: Seq<u8>, rest: Seq<u8>, setting: Setting)
    requires
        m.renderer.pending.len() == 0,
        !m.renderer.in_command,
        s.len() > 1,
        is_logged(s[0]),
        span(s + rest) == Span::Ends(s.len() as int),
        command(s + rest) == Command::Format(setting),
    ensures
        feed(m, s + rest) == feed(
            logged(
                (Machine {
                    renderer: RendererView {
                        state: with_setting(m.renderer.state, setting),
                        ..m.renderer
                    },
                    ..m
                }),
                s[0],
                s[1],
            ),
            rest,
        ),
{
    lemma_effect(m, s, rest);
}

/// A logged command that changes the symbol settings, in front of `rest`.
pub(crate) proof fn lemma_symbol(m: Machine, s: Seq<u8>, rest: Seq<u8>, setting: SymbolSetting)
    requires
        m.renderer.pending.len() == 0,
        !m.renderer.in_command,
        s.len() > 1,
        is_logged(s[0]),
        span(s + rest) == Span::Ends(s.len() as int),
        command(s + rest) == Command::Symbol(setting),
    ensures
        feed(m, s + rest) == feed(
            logged(
                (Machine {
                    renderer: RendererView {
                        symbols: with_symbol_setting(m.renderer.symbols, setting),
                        ..m.renderer
                    },
                    ..m
                }),
                s[0],
                s[1],
            ),
            rest,
        ),
{
    lemma_effect(m, s, rest);
}

/// A command that is not logged, in front of `rest`.
pub(crate) proof fn lemma_plain_effect(m: Machine, s: Seq<u8>, rest: Seq<u8>)
    requires
        m.renderer.pending.len() == 0,
        !m.renderer.in_command,
        s.len() > 0,
        !is_logged(s[0]),
        span(s + rest) == Span::Ends(s.len() as int),
        apply(m.renderer, m.device, command(s + rest)).pending == m.renderer.pending,
        !apply(m.renderer, m.device, command(s + rest)).in_command,
        apply_device(m.device, command(s + rest)) == m.device,
    ensures
        feed(m, s + rest) == feed(
            (Machine { renderer: apply(m.renderer, m.device, command(s + rest)), ..m }),
            rest,
        ),
{
    reveal(step);
    assert((s + rest)[0] == s[0]);
    lemma_first_command(m, s, rest);
}

} // verus!
