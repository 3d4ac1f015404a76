use vstd::prelude::*;

use crate::bytes;
use crate::client;
use crate::types::{Message, MessageView, Payload, PayloadView};

verus! {

/// The number that a command's header holds: its own, or the length of what follows.
pub open spec fn header_number(payload: PayloadView) -> nat {
    match payload {
        PayloadView::Number(n) => n as nat,
        PayloadView::Data(data) => data.len(),
    }
}

/// What follows a command's header.
pub open spec fn body(payload: PayloadView) -> Seq<u8> {
    match payload {
        PayloadView::Number(n) => Seq::empty(),
        PayloadView::Data(data) => data,
    }
}

/// A message in the form in which a client gets it, where headers have `n` bytes before their
/// code. A frame of inputs ends in a zero where a header has its code.
pub open spec fn encoded(n: nat, message: MessageView) -> Seq<u8> {
    match message {
        MessageView::Command(command) => client::header(
            n,
            header_number(command.payload),
            command.cmd,
        ) + body(command.payload),
        MessageView::AllGamepads(data) => data.push(0),
    }
}

/// Bytes for a client.
#[derive(Debug)]
pub struct Outgoing {
    pub bytes: Vec<u8>,
    /// Whether they, and all before them, have to leave at once.
    pub flush: bool,
}

/// Puts messages into the form in which a client gets them.
#[derive(Debug)]
pub struct ClientWriter {
    cmd_buf: Vec<u8>,
}

impl View for ClientWriter {
    type V = nat;

    /// How many bytes a header has before its code.
    closed spec fn view(&self) -> nat {
        (self.cmd_buf@.len() - 1) as nat
    }
}

impl ClientWriter {
    /// A header has room for a number, and nothing between the number and the code.
    pub closed spec fn wf(self) -> bool {
        &&& self.cmd_buf@.len() >= 5
        &&& forall|i: int| 4 <= i < self.cmd_buf@.len() - 1 ==> self.cmd_buf@[i] == 0
    }

    /// A writer for a client whose headers have `n` bytes before their code.
    pub fn new(n: usize) -> (r: ClientWriter)
        requires
            4 <= n < usize::MAX,
        ensures
            r.wf(),
            r@ == n,
    {
        ClientWriter { cmd_buf: bytes::zero_vec(n + 1) }
    }

    /// Puts a message into the form in which the client gets it.
    pub fn encode(&mut self, message: &Message) -> (r: Outgoing)
        requires
            old(self).wf(),
        ensures
            final(self).wf(),
            final(self)@ == old(self)@,
            r.bytes@ == encoded(old(self)@, message@),
            r.flush == (message@ is AllGamepads),
    {
        match message {
            Message::Command(command) => {
                let last: usize = self.cmd_buf.len() - 1;
                self.cmd_buf[last] = command.cmd;
                let number: usize = match &command.payload {
                    Payload::Number(n) => *n as usize,
                    Payload::Data(data) => data.len(),
                };
                client::set_number(&mut self.cmd_buf, number);
                assert(self.cmd_buf@ =~= client::header(
                    old(self)@,
                    header_number(command@.payload),
                    command@.cmd,
                ));
                let mut out: Vec<u8> = Vec::new();
                bytes::append_bytes(&mut out, self.cmd_buf.as_slice());
                if let Payload::Data(data) = &command.payload {
                    bytes::append_bytes(&mut out, data);
                }
                assert(out@ =~= encoded(old(self)@, message@));
                Outgoing { bytes: out, flush: false }
            },
            Message::AllGamepads(data) => {
                let mut out: Vec<u8> = Vec::new();
                bytes::append_bytes(&mut out, data);
                out.push(0);
                assert(out@ =~= encoded(old(self)@, message@));
                Outgoing { bytes: out, flush: true }
            },
        }
    }
}

} // verus!
