//! What the window shows and the connections change.

use vstd::prelude::*;
use crate::codepage::decodable_len;
use crate::element::{ElementView, ReceiptElement, element_views, element_views_concat};
use crate::framing::well_framed;
use crate::invariants::{elements_wf, machine_wf};
use crate::model::{Machine, RendererView, feed};
use crate::paper::PaperSize;
use crate::renderer::EscPosRenderer;
use crate::state::{Device, DeviceView, PrinterStatus, default_status};

verus! {

/// A text holds another.
pub open spec fn holds(text: Seq<char>, part: Seq<char>) -> bool {
    exists|k: int|
        0 <= k <= text.len() - part.len() && #[trigger] text.subrange(k, k + part.len()) == part
}

/// `str::contains`: whether a part of the text equals the other text.
#[verifier::external_body]
fn contains_text(text: &str, part: &str) -> (r: bool)
    ensures
        r == holds(text@, part@),
{
    text.contains(part)
}

/// Whether a cut leaves a part of the paper together.
pub fn is_partial_cut(cut_type: &str) -> (r: bool)
    ensures
        r == holds(cut_type@, "PARTIAL"@),
{
    contains_text(cut_type, "PARTIAL")
}

/// The state of the printer that all connections and the window share.
pub struct AppState {
    pub elements: Vec<ReceiptElement>,
    pub connections: Vec<String>,
    pub paper_size: PaperSize,
    pub device: Device,
    pub port: u16,
}

#[verifier::ext_equal]
pub struct AppView {
    pub elements: Seq<ElementView>,
    pub connections: Seq<Seq<char>>,
    pub paper_size: PaperSize,
    pub device: DeviceView,
    pub port: u16,
}

/// The views of a list of strings.
pub open spec fn text_views(texts: Seq<String>) -> Seq<Seq<char>> {
    Seq::new(texts.len(), |k: int| texts[k]@)
}

impl View for AppState {
    type V = AppView;

    open spec fn view(&self) -> AppView {
        AppView {
            elements: element_views(self.elements@),
            connections: text_views(self.connections@),
            paper_size: self.paper_size,
            device: self.device@,
            port: self.port,
        }
    }
}

/// The line that is shown for a connection.
pub open spec fn connection_line(addr: Seq<char>) -> Seq<char> {
    "Connected: "@ + addr
}

/// The connections that are not from `addr`.
pub open spec fn without_connection(connections: Seq<Seq<char>>, addr: Seq<char>) -> Seq<
    Seq<char>,
> {
    connections.filter(|line: Seq<char>| !holds(line, addr))
}

/// The printer as one connection sees it.
pub open spec fn app_machine(state: AppState, renderer: EscPosRenderer) -> Machine {
    Machine { renderer: renderer@, device: state.device@ }
}

impl AppState {
    /// A printer that is ready and has printed nothing.
    pub fn new(port: u16) -> (r: Self)
        ensures
            r@ == (AppView {
                elements: Seq::empty(),
                connections: Seq::empty(),
                paper_size: PaperSize::Size80mm,
                device: DeviceView {
                    status: default_status(),
                    nv_images: Map::empty(),
                    log: Seq::empty(),
                },
                port,
            }),
    {
        let state = AppState {
            elements: Vec::new(),
            connections: Vec::new(),
            paper_size: PaperSize::Size80mm,
            device: Device::default(),
            port,
        };
        assert(state@.elements =~= Seq::empty());
        assert(state@.connections =~= Seq::empty());
        state
    }

    /// A client has connected.
    pub fn connect(&mut self, addr: &str)
        ensures
            final(self)@ == (AppView {
                connections: old(self)@.connections.push(connection_line(addr@)),
                ..old(self)@
            }),
    {
        let mut line = "Connected: ".to_string();
        line.append(addr);
        self.connections.push(line);
        assert(self@.connections =~= old(self)@.connections.push(connection_line(addr@)));
    }

    /// A client has closed its connection: every line that holds its address
    /// goes.
    pub fn disconnect(&mut self, addr: &str)
        ensures
            final(self)@ == (AppView {
                connections: without_connection(old(self)@.connections, addr@),
                ..old(self)@
            }),
    {
        let ghost lines = self@.connections;
        let ghost keep = |line: Seq<char>| !holds(line, addr@);
        let mut kept: Vec<String> = Vec::new();
        let mut k: usize = 0;
        proof {
            reveal(Seq::filter);
            assert(lines.take(0) =~= Seq::empty());
            assert(text_views(kept@) =~= Seq::empty());
        }
        while k < self.connections.len()
            invariant
                k <= self.connections.len(),
                *self == *old(self),
                lines == self@.connections,
                keep == (|line: Seq<char>| !holds(line, addr@)),
                text_views(kept@) == lines.take(k as int).filter(keep),
            decreases self.connections.len() - k,
        {
            let ghost before = text_views(kept@);
            proof {
                reveal(Seq::filter);
                assert(lines.take(k + 1).drop_last() =~= lines.take(k as int));
                assert(lines.take(k + 1).last() == lines[k as int]);
            }
            if !contains_text(self.connections[k].as_str(), addr) {
                kept.push(self.connections[k].clone());
                assert(text_views(kept@) =~= before.push(lines[k as int]));
            }
            k += 1;
        }
        assert(lines.take(lines.len() as int) =~= lines);
        self.connections = kept;
    }

    /// Takes bytes of a client in and gives the bytes to send back. No bytes at
    /// all mean that the client has closed the connection, and there is nothing
    /// to send.
    pub fn receive(&mut self, renderer: &mut EscPosRenderer, addr: &str, bytes: &[u8]) -> (r:
        Option<Vec<u8>>)
        requires
            machine_wf(app_machine(*old(self), *old(renderer))),
            bytes@.len() > 0 ==> {
                &&& well_framed(old(renderer)@.pending + bytes@)
                &&& decodable_len(
                    old(renderer)@.line.len() + 4 * (old(renderer)@.pending.len() + bytes@.len()),
                )
            },
        ensures
            bytes@.len() == 0 ==> {
                &&& r is None
                &&& *final(renderer) == *old(renderer)
                &&& final(self)@ == (AppView {
                    connections: without_connection(old(self)@.connections, addr@),
                    ..old(self)@
                })
            },
            bytes@.len() > 0 ==> {
                let after = feed(app_machine(*old(self), *old(renderer)), bytes@);
                &&& r matches Some(responses) && responses@ == after.renderer.responses
                &&& final(renderer)@ == (RendererView { responses: Seq::empty(), ..after.renderer })
                &&& final(self)@ == (AppView { device: after.device, ..old(self)@ })
            },
            machine_wf(app_machine(*final(self), *final(renderer))),
    {
        if bytes.len() == 0 {
            self.disconnect(addr);
            return None;
        }
        renderer.process_data(&mut self.device, bytes);
        Some(renderer.take_responses())
    }

    /// Moves what a connection has printed to the receipt.
    pub fn collect(&mut self, renderer: &mut EscPosRenderer)
        ensures
            final(self)@ == (AppView {
                elements: old(self)@.elements + old(renderer)@.elements,
                ..old(self)@
            }),
            final(renderer)@ == (RendererView { elements: Seq::empty(), ..old(renderer)@ }),
            machine_wf(app_machine(*old(self), *old(renderer))) ==> machine_wf(
                app_machine(*final(self), *final(renderer)),
            ),
    {
        let mut printed = renderer.take_elements();
        proof {
            element_views_concat(self.elements@, printed@);
            reveal(elements_wf);
        }
        self.elements.append(&mut printed);
    }

    /// Tears the receipt off.
    pub fn clear_receipt(&mut self)
        ensures
            final(self)@ == (AppView { elements: Seq::empty(), ..old(self)@ }),
    {
        self.elements.clear();
        assert(self@.elements =~= Seq::empty());
    }

    /// Puts paper of a size in. A change of size clears the receipt; the answer
    /// says whether there was one.
    pub fn select_paper(&mut self, size: PaperSize) -> (changed: bool)
        ensures
            changed == (old(self)@.paper_size != size),
            final(self)@ == (if changed {
                AppView { paper_size: size, elements: Seq::empty(), ..old(self)@ }
            } else {
                old(self)@
            }),
    {
        if self.paper_size != size {
            self.paper_size = size;
            self.clear_receipt();
            true
        } else {
            false
        }
    }

    pub fn toggle_paper(&mut self)
        ensures
            final(self)@ == toggled_paper(old(self)@),
    {
        self.device.printer_status.paper_present = !self.device.printer_status.paper_present;
    }

    pub fn toggle_cover(&mut self)
        ensures
            final(self)@ == toggled_cover(old(self)@),
    {
        self.device.printer_status.cover_closed = !self.device.printer_status.cover_closed;
    }

    pub fn toggle_drawer(&mut self)
        ensures
            final(self)@ == toggled_drawer(old(self)@),
    {
        self.device.printer_status.drawer_open = !self.device.printer_status.drawer_open;
    }

    pub fn clear_log(&mut self)
        ensures
            final(self)@ == (AppView {
                device: DeviceView { log: Seq::empty(), ..old(self)@.device },
                ..old(self)@
            }),
    {
        self.device.command_log.clear();
        assert(self@.device.log =~= Seq::empty());
    }
}

/// The state with other sensors.
pub open spec fn with_status(state: AppView, status: PrinterStatus) -> AppView {
    AppView { device: DeviceView { status, ..state.device }, ..state }
}

pub open spec fn toggled_paper(state: AppView) -> AppView {
    let status = state.device.status;
    with_status(state, PrinterStatus { paper_present: !status.paper_present, ..status })
}

pub open spec fn toggled_cover(state: AppView) -> AppView {
    let status = state.device.status;
    with_status(state, PrinterStatus { cover_closed: !status.cover_closed, ..status })
}

pub open spec fn toggled_drawer(state: AppView) -> AppView {
    let status = state.device.status;
    with_status(state, PrinterStatus { drawer_open: !status.drawer_open, ..status })
}

/// Switching a sensor twice changes nothing.
pub proof fn toggling_twice_is_nothing(state: AppView)
    ensures
        toggled_paper(toggled_paper(state)) == state,
        toggled_cover(toggled_cover(state)) == state,
        toggled_drawer(toggled_drawer(state)) == state,
{
}

/// A client that connects and closes its connection leaves no line behind.
pub proof fn closed_connection_is_forgotten(connections: Seq<Seq<char>>, addr: Seq<char>)
    ensures
        without_connection(connections.push(connection_line(addr)), addr) == without_connection(
            connections,
            addr,
        ),
{
    let line = connection_line(addr);
    let n = "Connected: "@.len() as int;
    assert(line.subrange(n, n + addr.len()) =~= addr);
    assert(holds(line, addr));
    reveal(Seq::filter);
    assert(connections.push(line).drop_last() =~= connections);
}

} // verus!
