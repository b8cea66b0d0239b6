use vstd::prelude::*;

verus! {

/// One construct recognised in the byte stream a program writes to its
/// terminal.
#[derive(Debug)]
pub enum Event {
    /// A decoded character to draw.
    Print(char),
    /// A single-byte control code (line feed, carriage return, tab, ...).
    Execute(u8),
    /// A control sequence: its parameters (each with its sub-parameters),
    /// intermediate bytes, whether it overflowed, and its final character.
    Csi { params: Vec<Vec<u16>>, intermediates: Vec<u8>, ignore: bool, action: char },
    /// Any other escape sequence.
    Esc { intermediates: Vec<u8>, ignore: bool, byte: u8 },
    /// An operating system command string.
    Osc { strings: Vec<Vec<u8>>, bell_terminated: bool },
    /// Start of a device control string.
    Hook { params: Vec<Vec<u16>>, intermediates: Vec<u8>, ignore: bool, action: char },
    /// One byte of a device control string.
    Put(u8),
    /// End of a device control string.
    Unhook,
}

/// Collects what the parser recognises, in order.
pub struct EventSink {
    pub events: Vec<Event>,
}

/// vte::Params, the parameter list of a control sequence as the parser
/// hands it over; only carried to `params_to_vec`.
#[verifier::external_type_specification]
#[verifier::external_body]
pub struct ExParams(vte::Params);

/// Relies on vte::Params::iter: each parameter with its sub-parameters, in order.
#[verifier::external_body]
fn params_to_vec(params: &vte::Params) -> (r: Vec<Vec<u16>>) {
    params.iter().map(|p| p.to_vec()).collect()
}

/// A copy of `b`.
pub fn bytes_to_vec(b: &[u8]) -> (r: Vec<u8>)
    ensures
        r@ == b@,
{
    let mut r: Vec<u8> = Vec::new();
    let mut i: usize = 0;
    while i < b.len()
        invariant
            i <= b@.len(),
            r@ == b@.subrange(0, i as int),
        decreases b@.len() - i,
    {
        r.push(b[i]);
        i += 1;
    }
    proof {
        assert(b@.subrange(0, b@.len() as int) == b@);
    }
    r
}

impl vte::Perform for EventSink {
    fn print(&mut self, c: char) {
        self.events.push(Event::Print(c));
    }

    fn execute(&mut self, byte: u8) {
        self.events.push(Event::Execute(byte));
    }

    fn put(&mut self, byte: u8) {
        self.events.push(Event::Put(byte));
    }

    fn unhook(&mut self) {
        self.events.push(Event::Unhook);
    }

    fn hook(&mut self, params: &vte::Params, intermediates: &[u8], ignore: bool, action: char) {
        let params = params_to_vec(params);
        let intermediates = bytes_to_vec(intermediates);
        self.events.push(Event::Hook { params, intermediates, ignore, action });
    }

    fn osc_dispatch(&mut self, params: &[&[u8]], bell_terminated: bool) {
        let mut strings: Vec<Vec<u8>> = Vec::new();
        let mut i: usize = 0;
        while i < params.len()
            decreases params@.len() - i,
        {
            strings.push(bytes_to_vec(params[i]));
            i += 1;
        }
        self.events.push(Event::Osc { strings, bell_terminated });
    }

    fn esc_dispatch(&mut self, intermediates: &[u8], ignore: bool, byte: u8) {
        let intermediates = bytes_to_vec(intermediates);
        self.events.push(Event::Esc { intermediates, ignore, byte });
    }

    fn csi_dispatch(&mut self, params: &vte::Params, intermediates: &[u8], ignore: bool, action: char) {
        let params = params_to_vec(params);
        let intermediates = bytes_to_vec(intermediates);
        self.events.push(Event::Csi { params, intermediates, ignore, action });
    }
}

/// vte::Parser, which splits a byte stream into events; it keeps its state
/// between calls, so a sequence cut across two chunks is still recognised.
#[verifier::external_type_specification]
#[verifier::external_body]
pub struct ExParser<const N: usize>(vte::Parser<N>);

/// Relies on vte::Parser::new: a parser that has seen no input yet.
pub assume_specification[ vte::Parser::new ]() -> vte::Parser;

/// The events that vte::Parser::advance hands over, in order, when parser
/// `p` is fed `bytes`: they depend on the parser's state and the bytes alone.
pub uninterp spec fn vte_events(p: vte::Parser, bytes: Seq<u8>) -> Seq<Event>;

/// Relies on vte::Parser::advance: it hands each construct that it recognises
/// in `bytes` to the sink, in order; an empty slice yields nothing and leaves
/// the parser as it was.
#[verifier::external_body]
pub(crate) fn advance_parser(parser: &mut vte::Parser, bytes: &[u8]) -> (r: Vec<Event>)
    ensures
        r@ == vte_events(*old(parser), bytes@),
        bytes@.len() == 0 ==> r@.len() == 0,
        bytes@.len() == 0 ==> *final(parser) == *old(parser),
{
    let mut sink = EventSink { events: Vec::new() };
    parser.advance(&mut sink, bytes);
    sink.events
}

} // verus!
