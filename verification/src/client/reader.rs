use vstd::prelude::*;

use crate::bytes;
use crate::client::digest;
use crate::text;
use crate::types::commands;
use crate::types::{share_bytes, Command, CommandView, Payload, PayloadView};

verus! {

/// What the reading side of a session waits for.
#[derive(Clone, Copy, Debug, PartialEq, Eq, Structural)]
pub enum ReadPhase {
    /// Word from the room on the size of the client's input.
    InputSize,
    /// A code and a frame's worth of input behind it.
    Frame,
    /// The number of the command with this code.
    Number(u8),
    /// What the command with this code carries, of this length.
    Body(u8, usize),
}

/// Something that the reading side of a session asks of the world around it.
#[derive(Debug)]
pub enum ReadEffect {
    /// Hand a command to the room.
    Forward(Command),
    /// Write a line to the log.
    Log(String),
}

/// The contents of a `ReadEffect`.
pub enum ReadEffectView {
    Forward(CommandView),
    Log(Seq<char>),
}

impl View for ReadEffect {
    type V = ReadEffectView;

    open spec fn view(&self) -> ReadEffectView {
        match self {
            ReadEffect::Forward(command) => ReadEffectView::Forward(command@),
            ReadEffect::Log(line) => ReadEffectView::Log(line@),
        }
    }
}

/// The contents of what may follow from a read.
pub open spec fn effect_view(effect: Option<ReadEffect>) -> Option<ReadEffectView> {
    match effect {
        Some(e) => Some(e@),
        None => None,
    }
}

/// The state of the reading side of a session.
pub struct ReaderView {
    pub phase: ReadPhase,
    /// How many bytes of input the client sends in a frame.
    pub input_len: nat,
}

/// Whether a command has a number and nothing else.
pub open spec fn number_only(cmd: u8) -> bool {
    cmd == commands::INTEGRITY || cmd < 0x80
}

/// A buffer cut to `n` bytes, or filled up to `n` bytes with zeros.
pub open spec fn resized(buffer: Seq<u8>, n: nat) -> Seq<u8> {
    if n <= buffer.len() {
        buffer.take(n as int)
    } else {
        buffer + bytes::zeros((n - buffer.len()) as nat)
    }
}

impl ReaderView {
    /// What holds of the reading side at all times: a frame with its code has a length that a
    /// buffer can have, a command whose number is awaited has a code, and a command whose body is
    /// awaited is one that has a body.
    pub open spec fn wf(self) -> bool {
        &&& self.input_len < usize::MAX
        &&& self.phase matches ReadPhase::Number(cmd) ==> cmd != 0
        &&& self.phase matches ReadPhase::Body(cmd, n) ==> !number_only(cmd)
    }

    /// How many bytes are to be read next, if any are.
    pub open spec fn wanted(self) -> Option<nat> {
        match self.phase {
            ReadPhase::InputSize => None,
            ReadPhase::Frame => Some(self.input_len + 1),
            ReadPhase::Number(cmd) => Some(4),
            ReadPhase::Body(cmd, n) => Some(n as nat),
        }
    }

    /// The state that follows a read.
    pub open spec fn next(self, input: Seq<u8>) -> ReaderView {
        let phase = match self.phase {
            ReadPhase::InputSize => ReadPhase::InputSize,
            ReadPhase::Frame => if input[0] == 0 {
                ReadPhase::Frame
            } else {
                ReadPhase::Number(input[0])
            },
            ReadPhase::Number(cmd) => if !number_only(cmd) {
                ReadPhase::Body(cmd, bytes::le_value(input) as usize)
            } else if cmd == commands::CTRL_CHANGE_ACK {
                ReadPhase::InputSize
            } else {
                ReadPhase::Frame
            },
            ReadPhase::Body(cmd, n) => ReadPhase::Frame,
        };
        ReaderView { phase, ..self }
    }

    /// The client's input once something has been read: a frame without a code replaces it.
    pub open spec fn buffer(self, input: Seq<u8>, buffer: Seq<u8>) -> Seq<u8> {
        if self.phase == ReadPhase::Frame && input[0] == 0 {
            input.skip(1)
        } else {
            buffer
        }
    }

    /// What follows from a read.
    pub open spec fn effect(self, input: Seq<u8>) -> Option<ReadEffectView> {
        match self.phase {
            ReadPhase::Number(cmd) => if number_only(cmd) && cmd != commands::NOP {
                Some(
                    ReadEffectView::Forward(
                        CommandView {
                            cmd,
                            payload: PayloadView::Number(bytes::le_value(input) as u32),
                        },
                    ),
                )
            } else {
                None
            },
            ReadPhase::Body(cmd, n) => if cmd == commands::INTEGRITY_RES {
                Some(ReadEffectView::Log(text::hex(digest::md5_digest(input))))
            } else {
                Some(
                    ReadEffectView::Forward(
                        CommandView { cmd, payload: PayloadView::Data(input) },
                    ),
                )
            },
            _ => None,
        }
    }
}

/// Makes sense of what a client sends once it is in a room.
#[derive(Debug)]
pub struct ClientReader {
    phase: ReadPhase,
    input_len: usize,
}

impl View for ClientReader {
    type V = ReaderView;

    closed spec fn view(&self) -> ReaderView {
        ReaderView { phase: self.phase, input_len: self.input_len as nat }
    }
}

impl ClientReader {
    /// The reading side of a session that has just begun.
    pub fn new() -> (r: ClientReader)
        ensures
            r@.wf(),
            r@ == (ReaderView { phase: ReadPhase::InputSize, input_len: 0 }),
    {
        ClientReader { phase: ReadPhase::InputSize, input_len: 0 }
    }

    /// What the reading side waits for.
    pub fn phase(&self) -> (r: ReadPhase)
        ensures
            r == self@.phase,
    {
        self.phase
    }

    /// How many bytes to read next; `None` where the size of the input is to be had from the room
    /// first.
    pub fn wanted(&self) -> (r: Option<usize>)
        requires
            self@.wf(),
        ensures
            match r {
                Some(n) => self@.wanted() == Some(n as nat),
                None => self@.wanted() is None,
            },
    {
        match self.phase {
            ReadPhase::InputSize => None,
            ReadPhase::Frame => Some(self.input_len + 1),
            ReadPhase::Number(_) => Some(4),
            ReadPhase::Body(_, n) => Some(n),
        }
    }

    /// Takes the size of the client's input from the room, and brings the buffer for it to that
    /// size.
    pub fn on_input_size(&mut self, size: usize, controller_buffer: &mut Vec<u8>)
        requires
            old(self)@.phase == ReadPhase::InputSize,
            size < usize::MAX,
        ensures
            final(self)@.wf(),
            final(self)@ == (ReaderView { phase: ReadPhase::Frame, input_len: size as nat }),
            final(controller_buffer)@ == resized(old(controller_buffer)@, size as nat),
            final(controller_buffer)@.len() == final(self)@.input_len,
    {
        controller_buffer.resize(size, 0);
        assert(controller_buffer@ =~= resized(old(controller_buffer)@, size as nat)) by {
            if size > old(controller_buffer)@.len() {
                let n = old(controller_buffer)@.len() as int;
                assert(controller_buffer@.subrange(0, n) == old(controller_buffer)@);
                assert forall|i: int| 0 <= i < n implies #[trigger] controller_buffer@[i] == old(
                    controller_buffer,
                )@[i] by {
                    assert(controller_buffer@.subrange(0, n)[i] == controller_buffer@[i]);
                }
            }
        }
        self.input_len = size;
        self.phase = ReadPhase::Frame;
    }

    /// Takes what was read, and keeps the client's input where it is that.
    pub fn on_bytes(&mut self, input: Vec<u8>, controller_buffer: &mut Vec<u8>) -> (r: Option<
        ReadEffect,
    >)
        requires
            old(self)@.wf(),
            old(self)@.wanted() == Some(input@.len()),
            old(self)@.phase == ReadPhase::Frame ==> old(controller_buffer)@.len() == old(
                self,
            )@.input_len,
        ensures
            final(self)@.wf(),
            final(self)@ == old(self)@.next(input@),
            final(controller_buffer)@ == old(self)@.buffer(input@, old(controller_buffer)@),
            final(controller_buffer)@.len() == old(controller_buffer)@.len(),
            effect_view(r) == old(self)@.effect(input@),
    {
        match self.phase {
            ReadPhase::InputSize => None,
            ReadPhase::Frame => {
                if input[0] == 0 {
                    *controller_buffer = bytes::copy_range(input.as_slice(), 1, input.len());
                    assert(controller_buffer@ =~= input@.skip(1));
                } else {
                    self.phase = ReadPhase::Number(input[0]);
                }
                None
            },
            ReadPhase::Number(cmd) => {
                let number: u32 = bytes::from_le(input.as_slice());
                if cmd == commands::INTEGRITY || (cmd & 0x80) == 0 {
                    assert(number_only(cmd)) by {
                        assert((cmd & 0x80) == 0 ==> cmd < 0x80) by (bit_vector);
                    }
                    self.phase = if cmd == commands::CTRL_CHANGE_ACK {
                        ReadPhase::InputSize
                    } else {
                        ReadPhase::Frame
                    };
                    if cmd == commands::NOP {
                        None
                    } else {
                        Some(
                            ReadEffect::Forward(
                                Command { cmd, payload: Payload::Number(number) },
                            ),
                        )
                    }
                } else {
                    assert(!number_only(cmd)) by {
                        assert((cmd & 0x80) != 0 ==> cmd >= 0x80) by (bit_vector);
                    }
                    self.phase = ReadPhase::Body(cmd, number as usize);
                    None
                }
            },
            ReadPhase::Body(cmd, _) => {
                self.phase = ReadPhase::Frame;
                if cmd == commands::INTEGRITY_RES {
                    Some(ReadEffect::Log(digest::md5_text(input.as_slice())))
                } else {
                    Some(
                        ReadEffect::Forward(
                            Command { cmd, payload: Payload::Data(share_bytes(input)) },
                        ),
                    )
                }
            },
        }
    }
}

} // verus!
