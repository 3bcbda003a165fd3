//! Commands that print nothing are taken whole: none of their bytes is read as text.
//!
//! In every law `rest` is whatever is sent behind the command: it is read on from
//! the byte behind the last parameter.

use vstd::prelude::*;
use crate::chunking::pieces_add_up;
use crate::codes::{le16, le32};
use crate::framing::{
    Span, char_definition_bytes, lemma_nul_at, lemma_product16, nul_at, nv_bytes, nv_end,
    nv_image_end, overrun_at, span, span_bounds, well_framed,
};
use crate::laws::{leftover_is_incomplete, logged};
use crate::model::{Command, Machine, RendererView, command, feed};
use crate::state::{DeviceView, NvImageView, nv_image, nv_table};
use crate::stream::{
    lemma_effect, lemma_esc_stream, lemma_fs_stream, lemma_gs_stream, nothing_sent_is_nothing,
};

verus! {

/// Every ESC command without an effect of its own is taken with one parameter.
pub proof fn other_esc_commands_take_a_parameter(m: Machine, code: u8, n: u8, rest: Seq<u8>)
    requires
        m.renderer.pending.len() == 0,
        !m.renderer.in_command,
        code != 0x20 && code != 0x21 && code != 0x24 && code != 0x26 && code != 0x28 && code != 0x2A,
        code != 0x2D && code != 0x32 && code != 0x33 && code != 0x3C && code != 0x40 && code != 0x44,
        code != 0x45 && code != 0x47 && code != 0x4A && code != 0x4B && code != 0x4C && code != 0x4D,
        code != 0x57 && code != 0x59 && code != 0x5A && code != 0x5C && code != 0x61 && code != 0x63,
        code != 0x64 && code != 0x69 && code != 0x70 && code != 0x74 && code != 0x7E,
    ensures
        feed(m, seq![0x1Bu8, code, n] + rest) == feed(logged(m, 0x1B, code), rest),
{
    lemma_esc_stream();
    lemma_effect(m, seq![0x1Bu8, code, n], rest);
}

/// Every GS command without an effect of its own is taken with one parameter.
pub proof fn other_gs_commands_take_a_parameter(m: Machine, code: u8, n: u8, rest: Seq<u8>)
    requires
        m.renderer.pending.len() == 0,
        !m.renderer.in_command,
        code != 0x21 && code != 0x24 && code != 0x28 && code != 0x38 && code != 0x42 && code != 0x48,
        code != 0x49 && code != 0x4C && code != 0x56 && code != 0x57 && code != 0x61 && code != 0x68,
        code != 0x6B && code != 0x72 && code != 0x76 && code != 0x77,
    ensures
        feed(m, seq![0x1Du8, code, n] + rest) == feed(logged(m, 0x1D, code), rest),
{
    lemma_gs_stream();
    lemma_effect(m, seq![0x1Du8, code, n], rest);
}

/// `GS $ nL nH` is taken with two parameters, and does nothing.
pub proof fn vertical_position_is_taken(m: Machine, lo: u8, hi: u8, rest: Seq<u8>)
    requires
        m.renderer.pending.len() == 0,
        !m.renderer.in_command,
    ensures
        feed(m, seq![0x1Du8, 0x24u8, lo, hi] + rest) == feed(logged(m, 0x1D, 0x24), rest),
{
    lemma_gs_stream();
    lemma_effect(m, seq![0x1Du8, 0x24u8, lo, hi], rest);
}

/// `ESC c` is taken with two parameters, `ESC i` and `ESC <` with none.
pub proof fn sensor_command_is_taken(m: Machine, a: u8, b: u8, rest: Seq<u8>)
    requires
        m.renderer.pending.len() == 0,
        !m.renderer.in_command,
    ensures
        feed(m, seq![0x1Bu8, 0x63u8, a, b] + rest) == feed(logged(m, 0x1B, 0x63), rest),
        feed(m, seq![0x1Bu8, 0x69u8] + rest) == feed(logged(m, 0x1B, 0x69), rest),
        feed(m, seq![0x1Bu8, 0x3Cu8] + rest) == feed(logged(m, 0x1B, 0x3C), rest),
{
    lemma_esc_stream();
    lemma_effect(m, seq![0x1Bu8, 0x63u8, a, b], rest);
    lemma_effect(m, seq![0x1Bu8, 0x69u8], rest);
    lemma_effect(m, seq![0x1Bu8, 0x3Cu8], rest);
}

/// `ESC K` and `ESC L` are taken with a byte, `ESC Y` and `ESC Z` with two bytes, for
/// each column. Where data is missing only the header is taken.
pub proof fn old_images_are_skipped(m: Machine, code: u8, lo: u8, hi: u8, data: Seq<u8>, rest: Seq<u8>)
    requires
        m.renderer.pending.len() == 0,
        !m.renderer.in_command,
        code == 0x4B || code == 0x4C || code == 0x59 || code == 0x5A,
    ensures
        ({
            let bytes = if code == 0x4B || code == 0x4C {
                lo + 256 * hi
            } else {
                2 * (lo + 256 * hi)
            };
            let h = seq![0x1Bu8, code, lo, hi];
            &&& data.len() == bytes ==> feed(m, h + data + rest) == feed(logged(m, 0x1B, code), rest)
            &&& data.len() < bytes ==> feed(m, h + data) == feed(logged(m, 0x1B, code), data)
        }),
{
    lemma_esc_stream();
    let h = seq![0x1Bu8, code, lo, hi];
    let bytes = if code == 0x4B || code == 0x4C {
        lo + 256 * hi
    } else {
        2 * (lo + 256 * hi)
    };
    if data.len() == bytes {
        let t = h + data + rest;
        assert(le16(t, 2) == lo + 256 * hi);
        lemma_effect(m, h + data, rest);
    }
    if data.len() < bytes {
        let t = h + data;
        assert(le16(t, 2) == lo + 256 * hi);
        lemma_effect(m, h, data);
    }
}

/// `ESC D` is taken with all bytes up to a NUL, or up to the end of the stream.
pub proof fn tab_stops_are_taken(m: Machine, stops: Seq<u8>, rest: Seq<u8>)
    requires
        m.renderer.pending.len() == 0,
        !m.renderer.in_command,
        forall|j: int| 0 <= j < stops.len() ==> #[trigger] stops[j] != 0,
    ensures
        feed(m, seq![0x1Bu8, 0x44u8] + stops + seq![0u8] + rest) == feed(
            logged(m, 0x1B, 0x44),
            rest,
        ),
        feed(m, seq![0x1Bu8, 0x44u8] + stops) == logged(m, 0x1B, 0x44),
{
    lemma_esc_stream();
    let h = seq![0x1Bu8, 0x44u8] + stops;
    let s = h + seq![0u8];
    let t = s + rest;
    let e = Seq::<u8>::empty();
    assert(nul_at(t, 2) == 2 + stops.len()) by {
        lemma_nul_at(t, 2);
        let z = nul_at(t, 2);
        assert(t[2 + stops.len() as int] == 0);
        if z < 2 + stops.len() {
            assert(t[z] == stops[z - 2]);
        }
    }
    lemma_effect(m, s, rest);
    assert(nul_at(h, 2) == h.len()) by {
        lemma_nul_at(h, 2);
        let z = nul_at(h, 2);
        if z < h.len() {
            assert(h[z] == stops[z - 2]);
        }
    }
    assert(h + e =~= h);
    lemma_effect(m, h, e);
    nothing_sent_is_nothing(logged(m, 0x1B, 0x44));
}

/// `ESC W` is taken with eight parameters, or with one where fewer than eight bytes
/// are there.
pub proof fn page_area_is_taken(m: Machine, p: Seq<u8>, rest: Seq<u8>)
    requires
        m.renderer.pending.len() == 0,
        !m.renderer.in_command,
    ensures
        p.len() == 8 ==> feed(m, seq![0x1Bu8, 0x57u8] + p + rest) == feed(
            logged(m, 0x1B, 0x57),
            rest,
        ),
        p.len() == 1 && rest.len() < 7 ==> feed(m, seq![0x1Bu8, 0x57u8] + p + rest) == feed(
            logged(m, 0x1B, 0x57),
            rest,
        ),
{
    lemma_esc_stream();
    let s = seq![0x1Bu8, 0x57u8] + p;
    if p.len() == 8 || (p.len() == 1 && rest.len() < 7) {
        lemma_effect(m, s, rest);
    }
}

/// `ESC (`, and `GS (` with another function than `k`, are taken with as many bytes
/// as they declare. Where some are missing the stream is not well framed.
pub proof fn extended_commands_are_taken(m: Machine, opener: u8, function: u8, lo: u8, hi: u8, data: Seq<u8>, rest: Seq<u8>)
    requires
        m.renderer.pending.len() == 0,
        !m.renderer.in_command,
        opener == 0x1B || (opener == 0x1D && function != 0x6B),
    ensures
        ({
            let h = seq![opener, 0x28u8, function, lo, hi];
            &&& data.len() == lo + 256 * hi ==> feed(m, h + data + rest) == feed(
                logged(m, opener, 0x28),
                rest,
            )
            &&& data.len() < lo + 256 * hi ==> !well_framed(h + data)
        }),
{
    lemma_esc_stream();
    lemma_gs_stream();
    let h = seq![opener, 0x28u8, function, lo, hi];
    if data.len() == lo + 256 * hi {
        let t = h + data + rest;
        assert(le16(t, 3) == lo + 256 * hi);
        lemma_effect(m, h + data, rest);
    }
    if data.len() < lo + 256 * hi {
        let t = h + data;
        assert(le16(t, 3) == lo + 256 * hi);
    }
}

/// `ESC & y c1 c2` is taken with two times `y` bytes for each character from `c1` to
/// `c2`. Where some are missing the stream is not well framed.
pub proof fn character_definitions_are_taken(m: Machine, y: u8, c1: u8, c2: u8, data: Seq<u8>, rest: Seq<u8>)
    requires
        m.renderer.pending.len() == 0,
        !m.renderer.in_command,
    ensures
        ({
            let h = seq![0x1Bu8, 0x26u8, y, c1, c2];
            let bytes = if c1 <= c2 {
                (c2 - c1 + 1) * (2 * y)
            } else {
                0
            };
            &&& data.len() == bytes ==> feed(m, h + data + rest) == feed(logged(m, 0x1B, 0x26), rest)
            &&& data.len() < bytes ==> !well_framed(h + data)
        }),
{
    lemma_esc_stream();
    let h = seq![0x1Bu8, 0x26u8, y, c1, c2];
    let bytes = if c1 <= c2 {
        (c2 - c1 + 1) * (2 * y)
    } else {
        0
    };
    if c1 <= c2 {
        lemma_product16(c2 - c1 + 1, 2 * y);
    }
    assert(char_definition_bytes(y as int, c1 as int, c2 as int) == bytes);
    if data.len() == bytes {
        lemma_effect(m, h + data, rest);
    }
    if data.len() < bytes {
        let t = h + data;
        assert(t[2] == y && t[3] == c1 && t[4] == c2);
    }
}

/// `GS 8` with another function than `L` is taken with as many bytes as it declares,
/// a million at most, and waits for them.
pub proof fn long_commands_are_taken(m: Machine, function: u8, l: Seq<u8>, data: Seq<u8>, rest: Seq<u8>)
    requires
        m.renderer.pending.len() == 0,
        !m.renderer.in_command,
        function != 0x4C,
        l.len() == 4,
    ensures
        ({
            let h = seq![0x1Du8, 0x38u8, function, l[0], l[1], l[2], l[3]];
            let n = l[0] + 256 * l[1] + 65_536 * l[2] + 16_777_216 * l[3];
            let bytes = if n > 1_000_000 {
                1_000_000
            } else {
                n
            };
            &&& data.len() == bytes ==> feed(m, h + data + rest) == feed(logged(m, 0x1D, 0x38), rest)
            &&& data.len() < bytes ==> feed(m, h + data) == (Machine {
                renderer: RendererView { pending: h + data, in_command: true, ..m.renderer },
                ..m
            })
        }),
{
    lemma_gs_stream();
    let h = seq![0x1Du8, 0x38u8, function, l[0], l[1], l[2], l[3]];
    let n = l[0] + 256 * l[1] + 65_536 * l[2] + 16_777_216 * l[3];
    let bytes = if n > 1_000_000 {
        1_000_000
    } else {
        n
    };
    if data.len() == bytes {
        let t = h + data + rest;
        assert(le32(t, 3) == n);
        lemma_effect(m, h + data, rest);
    }
    if data.len() < bytes {
        let t = h + data;
        assert(le32(t, 3) == n);
        assert(m.renderer.pending + t =~= t);
    }
}

/// `GS 8` with another function than `L` waits for its length.
pub proof fn long_command_headers_wait(m: Machine, t: Seq<u8>)
    requires
        m.renderer.pending.len() == 0,
        !m.renderer.in_command,
        3 <= t.len() < 7,
        t[0] == 0x1D && t[1] == 0x38 && t[2] != 0x4C,
    ensures
        feed(m, t) == (Machine {
            renderer: RendererView { pending: t, in_command: true, ..m.renderer },
            ..m
        }),
{
    lemma_gs_stream();
    assert(m.renderer.pending + t =~= t);
}

/// A command that ends behind its second byte is taken and does nothing, unless it
/// needs no parameter or is a column image.
pub proof fn missing_parameters(m: Machine, code: u8)
    requires
        m.renderer.pending.len() == 0,
        !m.renderer.in_command,
    ensures
        code != 0x40 && code != 0x32 && code != 0x2A ==> feed(m, seq![0x1Bu8, code]) == logged(
            m,
            0x1B,
            code,
        ),
        feed(m, seq![0x1Cu8, code]) == logged(m, 0x1C, code),
        feed(m, seq![0x1Du8, code]) == logged(m, 0x1D, code),
{
    lemma_esc_stream();
    lemma_fs_stream();
    lemma_gs_stream();
    let e = Seq::<u8>::empty();
    nothing_sent_is_nothing(logged(m, 0x1B, code));
    nothing_sent_is_nothing(logged(m, 0x1C, code));
    nothing_sent_is_nothing(logged(m, 0x1D, code));
    if code != 0x40 && code != 0x32 && code != 0x2A {
        let s = seq![0x1Bu8, code];
        assert(s + e =~= s);
        lemma_nul_at(s, 2);
        lemma_effect(m, s, e);
    }
    let s = seq![0x1Cu8, code];
    assert(s + e =~= s);
    lemma_effect(m, s, e);
    let s = seq![0x1Du8, code];
    assert(s + e =~= s);
    lemma_effect(m, s, e);
}

/// A command of which only some parameters are there ends behind its second byte,
/// and they are read on as the stream goes.
pub proof fn some_parameters_missing(m: Machine, code: u8, p: Seq<u8>)
    requires
        m.renderer.pending.len() == 0,
        !m.renderer.in_command,
    ensures
        p.len() == 1 && (code == 0x24 || code == 0x5C || code == 0x63) ==> feed(
            m,
            seq![0x1Bu8, code] + p,
        ) == feed(logged(m, 0x1B, code), p),
        0 < p.len() < 3 && (code == 0x70 || code == 0x28 || code == 0x26) ==> feed(
            m,
            seq![0x1Bu8, code] + p,
        ) == feed(logged(m, 0x1B, code), p),
        p.len() == 1 && (code == 0x4B || code == 0x4C || code == 0x59 || code == 0x5A) ==> feed(
            m,
            seq![0x1Bu8, code] + p,
        ) == feed(logged(m, 0x1B, code), p),
        p.len() == 1 && (code == 0x24 || code == 0x4C || code == 0x57) ==> feed(
            m,
            seq![0x1Du8, code] + p,
        ) == feed(logged(m, 0x1D, code), p),
        0 < p.len() < 3 && p[0] != 0x6B && code == 0x28 ==> feed(m, seq![0x1Du8, code] + p)
            == feed(logged(m, 0x1D, code), p),
        p.len() == 1 && code == 0x70 ==> feed(m, seq![0x1Cu8, code] + p) == feed(
            logged(m, 0x1C, code),
            p,
        ),
        0 < p.len() < 4 && code == 0x28 ==> feed(m, seq![0x1Cu8, code] + p) == feed(
            logged(m, 0x1C, code),
            p,
        ),
{
    lemma_esc_stream();
    lemma_fs_stream();
    lemma_gs_stream();
    if (p.len() == 1 && (code == 0x24 || code == 0x5C || code == 0x63)) || (0 < p.len() < 3 && (code
        == 0x70 || code == 0x28 || code == 0x26)) || (p.len() == 1 && (code == 0x4B || code == 0x4C
        || code == 0x59 || code == 0x5A)) {
        lemma_effect(m, seq![0x1Bu8, code], p);
    }
    if (p.len() == 1 && (code == 0x24 || code == 0x4C || code == 0x57)) || (0 < p.len() < 3 && p[0]
        != 0x6B && code == 0x28) {
        lemma_effect(m, seq![0x1Du8, code], p);
    }
    if (p.len() == 1 && code == 0x70) || (0 < p.len() < 4 && code == 0x28) {
        lemma_effect(m, seq![0x1Cu8, code], p);
    }
}

/// The FS commands `C`, `g`, `!`, `&`, `S` and `-` are taken with one parameter. So is
/// `.`, unless the next byte opens a command.
pub proof fn fs_commands_with_a_parameter(m: Machine, code: u8, n: u8, rest: Seq<u8>)
    requires
        m.renderer.pending.len() == 0,
        !m.renderer.in_command,
        code == 0x43 || code == 0x67 || code == 0x21 || code == 0x26 || code == 0x53 || code == 0x2D
            || code == 0x2E,
    ensures
        code == 0x2E && (n == 0x10 || n == 0x1B || n == 0x1C || n == 0x1D) ==> feed(
            m,
            seq![0x1Cu8, code] + (seq![n] + rest),
        ) == feed(logged(m, 0x1C, code), seq![n] + rest),
        !(code == 0x2E && (n == 0x10 || n == 0x1B || n == 0x1C || n == 0x1D)) ==> feed(
            m,
            seq![0x1Cu8, code, n] + rest,
        ) == feed(logged(m, 0x1C, code), rest),
{
    lemma_esc_stream();
    lemma_fs_stream();
    lemma_gs_stream();
    if code == 0x2E && (n == 0x10 || n == 0x1B || n == 0x1C || n == 0x1D) {
        let t = seq![0x1Cu8, code] + (seq![n] + rest);
        assert(t[2] == n);
        lemma_effect(m, seq![0x1Cu8, code], seq![n] + rest);
    } else {
        lemma_effect(m, seq![0x1Cu8, code, n], rest);
    }
}

/// `FS (` is taken with as many bytes as it declares. Where some are missing the
/// stream is not well framed.
pub proof fn extended_fs_command_is_taken(m: Machine, function: u8, lo: u8, hi: u8, data: Seq<u8>, rest: Seq<u8>)
    requires
        m.renderer.pending.len() == 0,
        !m.renderer.in_command,
        data.len() + rest.len() > 0,
    ensures
        data.len() == lo + 256 * hi ==> feed(
            m,
            seq![0x1Cu8, 0x28u8, function, lo, hi] + data + rest,
        ) == feed(logged(m, 0x1C, 0x28), rest),
        0 < data.len() < lo + 256 * hi ==> !well_framed(
            seq![0x1Cu8, 0x28u8, function, lo, hi] + data,
        ),
{
    lemma_fs_stream();
    let h = seq![0x1Cu8, 0x28u8, function, lo, hi];
    if data.len() == lo + 256 * hi {
        let t = h + data + rest;
        assert(le16(t, 3) == lo + 256 * hi);
        lemma_effect(m, h + data, rest);
    }
    if 0 < data.len() < lo + 256 * hi {
        let t = h + data;
        assert(le16(t, 3) == lo + 256 * hi);
    }
}

/// Every other FS command is taken with a next byte that is below 0x1B or above 0x7E,
/// and with a second such byte behind one above 0x7F.
pub proof fn other_fs_commands(m: Machine, code: u8, rest: Seq<u8>)
    requires
        m.renderer.pending.len() == 0,
        !m.renderer.in_command,
        code != 0x21 && code != 0x26 && code != 0x28 && code != 0x2D && code != 0x2E,
        code != 0x43 && code != 0x53 && code != 0x67 && code != 0x70 && code != 0x71,
    ensures
        rest.len() > 0 && 0x1B <= rest[0] <= 0x7E ==> feed(m, seq![0x1Cu8, code] + rest) == feed(
            logged(m, 0x1C, code),
            rest,
        ),
        rest.len() > 0 && (rest[0] < 0x1B || rest[0] == 0x7F) ==> feed(m, seq![0x1Cu8, code] + rest)
            == feed(logged(m, 0x1C, code), rest.skip(1)),
        rest.len() > 1 && 0x7F < rest[0] && 0x1B <= rest[1] <= 0x7E ==> feed(
            m,
            seq![0x1Cu8, code] + rest,
        ) == feed(logged(m, 0x1C, code), rest.skip(1)),
        rest.len() > 1 && 0x7F < rest[0] && (rest[1] < 0x1B || 0x7E < rest[1]) ==> feed(
            m,
            seq![0x1Cu8, code] + rest,
        ) == feed(logged(m, 0x1C, code), rest.skip(2)),
        rest.len() == 1 && 0x7F < rest[0] ==> feed(m, seq![0x1Cu8, code] + rest) == logged(
            m,
            0x1C,
            code,
        ),
{
    lemma_esc_stream();
    lemma_fs_stream();
    let h = seq![0x1Cu8, code];
    let t = h + rest;
    if rest.len() > 0 {
        assert(t[2] == rest[0]);
        if 0x1B <= rest[0] <= 0x7E {
            lemma_effect(m, h, rest);
        } else if rest.len() > 1 && 0x7F < rest[0] && (rest[1] < 0x1B || 0x7E < rest[1]) {
            let s = h.push(rest[0]).push(rest[1]);
            assert(t[3] == rest[1]);
            assert(s + rest.skip(2) =~= t);
            lemma_effect(m, s, rest.skip(2));
        } else {
            let s = h.push(rest[0]);
            if rest.len() > 1 {
                assert(t[3] == rest[1]);
            }
            assert(s + rest.skip(1) =~= t);
            lemma_effect(m, s, rest.skip(1));
            assert(rest.len() == 1 ==> rest.skip(1) =~= Seq::empty());
            nothing_sent_is_nothing(logged(m, 0x1C, code));
        }
    }
}

/// The bytes of one NV image: its width in bytes and its height in dots, low byte
/// first, and its data.
pub open spec fn nv_image_bytes(image: NvImageView) -> Seq<u8> {
    let wide = image.width / 8;
    seq![
        (wide % 256) as u8,
        (wide / 256) as u8,
        (image.height % 256) as u8,
        (image.height / 256) as u8,
    ] + image.data
}

/// The bytes of NV images, one behind the other.
pub open spec fn nv_images_bytes(images: Seq<NvImageView>) -> Seq<u8>
    decreases images.len(),
{
    if images.len() == 0 {
        Seq::empty()
    } else {
        nv_image_bytes(images[0]) + nv_images_bytes(images.skip(1))
    }
}

/// An image that `FS q` can send.
pub open spec fn sendable(image: NvImageView) -> bool {
    let wide = image.width / 8;
    &&& image.width == 8 * wide
    &&& 0 <= wide <= 65_535
    &&& 0 <= image.height <= 65_535
    &&& image.data.len() == wide * image.height
}

/// The first of the images that are sent from `pos` on.
proof fn lemma_nv_first(t: Seq<u8>, pos: int, images: Seq<NvImageView>, rest: Seq<u8>)
    requires
        0 <= pos <= t.len(),
        images.len() > 0,
        t.skip(pos) == nv_images_bytes(images) + rest,
        sendable(images[0]),
    ensures
        ({
            let next = pos + 4 + images[0].data.len();
            &&& next <= t.len()
            &&& nv_bytes(t, pos) == images[0].data.len()
            &&& nv_image(t, pos) == images[0]
            &&& nv_image_end(t, pos) == next
            &&& t.skip(next) == nv_images_bytes(images.skip(1)) + rest
        }),
{
    let image = images[0];
    let own = nv_image_bytes(image);
    let tail = nv_images_bytes(images.skip(1));
    let u = own + tail + rest;
    assert(own.len() == 4 + image.data.len());
    assert(nv_images_bytes(images) =~= own + tail);
    assert(t.skip(pos) =~= u);
    assert(t.len() - pos == u.len());
    assert forall|j: int| 0 <= j < u.len() implies t[pos + j] == #[trigger] u[j] by {
        assert(t.skip(pos)[j] == t[pos + j]);
    }
    assert(t[pos] == u[0] && t[pos + 1] == u[1] && t[pos + 2] == u[2] && t[pos + 3] == u[3]);
    assert(le16(t, pos) == image.width / 8 && le16(t, pos + 2) == image.height);
    let next = pos + 4 + image.data.len();
    assert(t.subrange(pos + 4, next) =~= image.data) by {
        assert forall|j: int| 0 <= j < image.data.len() implies t[pos + 4 + j] == image.data[j] by {
            assert(u[4 + j] == image.data[j]);
        }
    }
    assert(t.skip(next) =~= tail + rest) by {
        assert forall|j: int| 0 <= j < tail.len() + rest.len() implies t[next + j] == (tail + rest)[
            j] by {
            assert(u[own.len() + j] == (tail + rest)[j]);
        }
    }
}

proof fn lemma_more_sendable(images: Seq<NvImageView>)
    requires
        images.len() > 0,
        forall|j: int| 0 <= j < images.len() ==> sendable(#[trigger] images[j]),
    ensures
        sendable(images[0]),
        forall|j: int| 0 <= j < images.skip(1).len() ==> sendable(#[trigger] images.skip(1)[j]),
{
    assert forall|j: int| 0 <= j < images.skip(1).len() implies sendable(
        #[trigger] images.skip(1)[j],
    ) by {
        assert(images.skip(1)[j] == images[j + 1]);
    }
}

proof fn lemma_nv_sent_end(t: Seq<u8>, pos: int, images: Seq<NvImageView>, rest: Seq<u8>)
    requires
        0 <= pos <= t.len(),
        t.skip(pos) == nv_images_bytes(images) + rest,
        forall|j: int| 0 <= j < images.len() ==> sendable(#[trigger] images[j]),
    ensures
        nv_end(t, pos, images.len()) == t.len() - rest.len(),
    decreases images.len(),
{
    if images.len() > 0 {
        lemma_more_sendable(images);
        lemma_nv_first(t, pos, images, rest);
        lemma_nv_sent_end(t, pos + 4 + images[0].data.len(), images.skip(1), rest);
    } else {
        assert(nv_images_bytes(images) =~= Seq::empty());
        assert(t.skip(pos).len() == rest.len());
    }
}

proof fn lemma_nv_sent_slot(
    t: Seq<u8>,
    pos: int,
    slot: int,
    images: Seq<NvImageView>,
    rest: Seq<u8>,
    table: Map<u8, NvImageView>,
    k: u8,
)
    requires
        0 <= pos <= t.len(),
        t.skip(pos) == nv_images_bytes(images) + rest,
        forall|j: int| 0 <= j < images.len() ==> sendable(#[trigger] images[j]),
        1 <= slot,
        slot + images.len() <= 256,
    ensures
        ({
            let after = nv_table(table, t, pos, slot, images.len());
            if slot <= k < slot + images.len() && images[k - slot].data.len() > 0 {
                after.contains_key(k) && after[k] == images[k - slot]
            } else {
                &&& after.contains_key(k) == table.contains_key(k)
                &&& table.contains_key(k) ==> after[k] == table[k]
            }
        }),
    decreases images.len(),
{
    if images.len() > 0 {
        let image = images[0];
        let more = images.skip(1);
        let next = pos + 4 + image.data.len();
        lemma_more_sendable(images);
        lemma_nv_first(t, pos, images, rest);
        let with_first = if image.data.len() > 0 {
            table.insert(slot as u8, image)
        } else {
            table
        };
        assert(nv_table(table, t, pos, slot, images.len()) == nv_table(
            with_first,
            t,
            next,
            slot + 1,
            more.len(),
        ));
        lemma_nv_sent_slot(t, next, slot + 1, more, rest, with_first, k);
        if slot + 1 <= k < slot + 1 + more.len() {
            assert(more[k - (slot + 1)] == images[k - slot]);
        }
    }
}

/// `FS q n` gives back what it was sent: image after image goes to the slots from
/// one on, unless it has no data, and all other slots keep what they have. Nothing
/// is printed.
pub proof fn nv_images_are_kept(m: Machine, images: Seq<NvImageView>, rest: Seq<u8>)
    requires
        m.renderer.pending.len() == 0,
        !m.renderer.in_command,
        images.len() <= 255,
        forall|j: int| 0 <= j < images.len() ==> sendable(#[trigger] images[j]),
    ensures
        ({
            let s = seq![0x1Cu8, 0x71u8, images.len() as u8] + nv_images_bytes(images);
            let kept = feed(m, s);
            let slots = kept.device.nv_images;
            &&& feed(m, s + rest) == feed(kept, rest)
            &&& kept == logged(
                (Machine { device: DeviceView { nv_images: slots, ..m.device }, ..m }),
                0x1C,
                0x71,
            )
            &&& forall|k: u8|
                #![trigger slots.contains_key(k)]
                if 1 <= k <= images.len() && images[k - 1].data.len() > 0 {
                    slots.contains_key(k) && slots[k] == images[k - 1]
                } else {
                    &&& slots.contains_key(k) == m.device.nv_images.contains_key(k)
                    &&& slots.contains_key(k) ==> slots[k] == m.device.nv_images[k]
                }
        }),
{
    let h = seq![0x1Cu8, 0x71u8, images.len() as u8];
    let s = h + nv_images_bytes(images);
    let e = Seq::<u8>::empty();
    let none = Map::<u8, NvImageView>::empty();
    assert(s + e =~= s);
    lemma_nv_stored(m, images, e);
    lemma_nv_stored(m, images, rest);
    assert((s + rest).skip(3) =~= nv_images_bytes(images) + rest);
    assert(s.skip(3) =~= nv_images_bytes(images) + e);
    let table = nv_table(none, s, 3, 1, images.len());
    let other = nv_table(none, s + rest, 3, 1, images.len());
    assert forall|k: u8|
        #![trigger table.contains_key(k)]
        #![trigger other.contains_key(k)]
        ({
            &&& table.contains_key(k) == other.contains_key(k)
            &&& table.contains_key(k) ==> table[k] == other[k]
            &&& table.contains_key(k) == (1 <= k <= images.len() && images[k - 1].data.len() > 0)
            &&& table.contains_key(k) ==> table[k] == images[k - 1]
        }) by {
        lemma_nv_sent_slot(s, 3, 1, images, e, none, k);
        lemma_nv_sent_slot(s + rest, 3, 1, images, rest, none, k);
    }
    assert(table =~= other);
    let after = m.device.nv_images.union_prefer_right(table);
    let kept = logged(
        Machine { device: DeviceView { nv_images: after, ..m.device }, ..m },
        0x1C,
        0x71,
    );
    nothing_sent_is_nothing(kept);
    assert(feed(m, s) == kept);
    assert forall|k: u8|
        #![trigger after.contains_key(k)]
        if 1 <= k <= images.len() && images[k - 1].data.len() > 0 {
            after.contains_key(k) && after[k] == images[k - 1]
        } else {
            &&& after.contains_key(k) == m.device.nv_images.contains_key(k)
            &&& after.contains_key(k) ==> after[k] == m.device.nv_images[k]
        } by {
        assert(table.contains_key(k) || !table.contains_key(k));
    }
}

proof fn lemma_nv_stored(m: Machine, images: Seq<NvImageView>, rest: Seq<u8>)
    requires
        m.renderer.pending.len() == 0,
        !m.renderer.in_command,
        images.len() <= 255,
        forall|j: int| 0 <= j < images.len() ==> sendable(#[trigger] images[j]),
    ensures
        ({
            let s = seq![0x1Cu8, 0x71u8, images.len() as u8] + nv_images_bytes(images);
            let table = nv_table(Map::empty(), s + rest, 3, 1, images.len());
            feed(m, s + rest) == feed(
                logged(
                    (Machine {
                        device: DeviceView {
                            nv_images: m.device.nv_images.union_prefer_right(table),
                            ..m.device
                        },
                        ..m
                    }),
                    0x1C,
                    0x71,
                ),
                rest,
            )
        }),
{
    let s = seq![0x1Cu8, 0x71u8, images.len() as u8] + nv_images_bytes(images);
    let t = s + rest;
    assert(t.skip(3) =~= nv_images_bytes(images) + rest);
    lemma_nv_sent_end(t, 3, images, rest);
    let table = nv_table(Map::empty(), t, 3, 1, images.len());
    assert(span(t) == Span::Ends(s.len() as int)) by {
        lemma_fs_stream();
    }
    assert(command(t) == Command::DefineNv(table)) by {
        lemma_fs_stream();
    }
    lemma_effect(m, s, rest);
}

/// An NV image of which data is missing at the end of the stream is taken and
/// defines nothing. One of which the header is missing ends the command before it.
pub proof fn nv_images_cut_short(m: Machine, n: u8, head: Seq<u8>, data: Seq<u8>)
    requires
        m.renderer.pending.len() == 0,
        !m.renderer.in_command,
        n > 0,
    ensures
        head.len() == 4 && data.len() < (head[0] + 256 * head[1]) * (head[2] + 256 * head[3])
            ==> feed(m, seq![0x1Cu8, 0x71u8, n] + head + data) == logged(m, 0x1C, 0x71),
        head.len() < 4 ==> feed(m, seq![0x1Cu8, 0x71u8, n] + head) == feed(
            logged(m, 0x1C, 0x71),
            head,
        ),
{
    let h = seq![0x1Cu8, 0x71u8, n];
    let e = Seq::<u8>::empty();
    let none = Map::<u8, NvImageView>::empty();
    assert(m.device.nv_images.union_prefer_right(none) =~= m.device.nv_images);
    if head.len() == 4 && data.len() < (head[0] + 256 * head[1]) * (head[2] + 256 * head[3]) {
        let t = h + head + data;
        assert(t[3] == head[0] && t[4] == head[1] && t[5] == head[2] && t[6] == head[3]);
        assert(nv_bytes(t, 3) == (head[0] + 256 * head[1]) * (head[2] + 256 * head[3]));
        assert(nv_image_end(t, 3) == t.len());
        assert(nv_end(t, t.len() as int, (n - 1) as nat) == t.len());
        assert(nv_table(none, t, t.len() as int, 2, (n - 1) as nat) == none);
        assert(span(t) == Span::Ends(t.len() as int)) by {
            lemma_fs_stream();
        }
        assert(command(t) == Command::DefineNv(none)) by {
            lemma_fs_stream();
        }
        assert(t + e =~= t);
        lemma_effect(m, t, e);
        nothing_sent_is_nothing(logged(m, 0x1C, 0x71));
    }
    if head.len() < 4 {
        let t = h + head;
        assert(nv_end(t, 3, n as nat) == 3);
        assert(nv_table(none, t, 3, 1, n as nat) == none);
        assert(span(t) == Span::Ends(3)) by {
            lemma_fs_stream();
        }
        assert(command(t) == Command::DefineNv(none)) by {
            lemma_fs_stream();
        }
        lemma_effect(m, h, head);
    }
}

/// A byte that opens a command waits for the next one.
pub proof fn opening_byte_waits(m: Machine, b: u8)
    requires
        m.renderer.pending.len() == 0,
        !m.renderer.in_command,
        b == 0x10 || b == 0x1B || b == 0x1C || b == 0x1D,
    ensures
        feed(m, seq![b]) == (Machine {
            renderer: RendererView { pending: seq![b], in_command: true, ..m.renderer },
            ..m
        }),
{
    reveal(span);
    assert(m.renderer.pending + seq![b] =~= seq![b]);
}

/// What waits is read together with what comes next, as if it had come at once.
pub proof fn waiting_bytes_go_on(m: Machine, first: Seq<u8>, more: Seq<u8>)
    requires
        m.renderer.pending.len() == 0,
        first.len() > 0,
        feed(m, first).renderer.pending == first,
        well_framed(first),
        well_framed(first + more),
    ensures
        feed(feed(m, first), more) == feed(m, first + more),
{
    assert(m.renderer.pending + first =~= first);
    assert(m.renderer.pending + (first + more) =~= first + more);
    leftover_is_incomplete(first);
    pieces_add_up(m, first, more);
}

/// Only `ESC (`, `ESC &`, `GS (` and `FS (` can claim bytes that are not there.
pub proof fn only_counted_commands_overrun(s: Seq<u8>)
    requires
        s.len() > 0,
        span(s) is Overrun,
    ensures
        s.len() >= 5,
        (s[0] == 0x1B && (s[1] == 0x28 || s[1] == 0x26)) || (s[0] == 0x1D && s[1] == 0x28 && s[2]
            != 0x6B) || (s[0] == 0x1C && s[1] == 0x28),
{
    reveal(span);
}

/// A command that is sent in front of a stream is the first of it, and the stream
/// is well framed where what is behind the command is.
pub proof fn framing_goes_on_behind_a_command(s: Seq<u8>)
    requires
        s.len() > 0,
    ensures
        span(s) matches Span::Ends(e) ==> {
            &&& 0 < e <= s.len()
            &&& well_framed(s) == well_framed(s.skip(e))
            &&& overrun_at(s) == e + overrun_at(s.skip(e))
        },
        span(s) is Incomplete ==> well_framed(s) && overrun_at(s) == s.len(),
        span(s) is Overrun ==> !well_framed(s) && overrun_at(s) == 0,
        well_framed(Seq::empty()) && overrun_at(Seq::empty()) == 0,
{
    span_bounds(s);
}

} // verus!
