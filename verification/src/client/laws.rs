use std::sync::Arc;
use vstd::prelude::*;

use crate::bytes;
use crate::client;
use crate::client::digest;
use crate::client::reader;
use crate::client::reader::{ClientReader, ReadEffect, ReadEffectView, ReadPhase, ReaderView};
use crate::client::writer;
use crate::client::writer::{ClientWriter, Outgoing};
use crate::client::LoginData;
use crate::room::model;
use crate::room::model::{ControllerView, RoomView};
use crate::text;
use crate::types::commands;
use crate::types::{
    Command, CommandView, JoinRequest, Message, MessageView, Payload, PayloadView, Protocol, MAX_CONTROLLERS_PER_GAME,
    MAX_NICK_LEN, MAX_TOTAL_CONTROLLERS_DATA_SIZE,
};

verus! {

/// A login of a length that is read has all the bytes that a verdict on it takes.
pub proof fn law_read_login_gets_verdict(buf: Seq<u8>)
    requires
        client::login_len_ok(buf.len()),
    ensures
        client::bytes_needed(buf) <= buf.len(),
{
}

pub(crate) proof fn lemma_sum_of_ones(s: Seq<u8>)
    requires
        forall|i: int| 0 <= i < s.len() ==> #[trigger] s[i] == 1,
    ensures
        client::byte_sum(s) == s.len(),
    decreases s.len(),
{
    if s.len() > 0 {
        lemma_sum_of_ones(s.drop_last());
        assert(s.last() == s[s.len() - 1]);
    }
}

proof fn lemma_sum_of_front(s: Seq<u8>, n: int)
    requires
        0 <= n <= s.len(),
    ensures
        client::byte_sum(s.take(n)) <= client::byte_sum(s),
    decreases s.len() - n,
{
    if n < s.len() {
        assert(s.take(n + 1).drop_last() =~= s.take(n));
        lemma_sum_of_front(s, n + 1);
    } else {
        assert(s.take(n) =~= s);
    }
}

/// A login that is accepted keeps to all the limits: on controllers for its protocol and in all,
/// on the size of a frame, on the nickname; and the name of its emulator has no control
/// characters.
pub proof fn law_accepted_login_keeps_limits(buf: Seq<u8>, login: LoginData)
    requires
        client::login_error(buf) is None,
        client::says(buf, login),
        buf.len() >= client::bytes_needed(buf),
    ensures
        login.total_controllers <= MAX_CONTROLLERS_PER_GAME,
        login.protocol != Protocol::V3 ==> login.total_controllers <= 8,
        client::byte_sum(login.controller_data_size@) <= MAX_TOTAL_CONTROLLERS_DATA_SIZE,
        login.nickname@.len() <= MAX_NICK_LEN,
        forall|i: int|
            0 <= i < 64 ==> #[trigger] login.emu_id@[i] == 0 || login.emu_id@[i] >= 0x20,
        4 <= client::buffer_len(login.controller_data_size@, login.total_controllers as nat)
            <= MAX_TOTAL_CONTROLLERS_DATA_SIZE,
{
    let sizes = login.controller_data_size@;
    if login.protocol != Protocol::V3 {
        lemma_sum_of_ones(sizes);
    }
    lemma_sum_of_front(sizes, login.total_controllers as int);
}

proof fn lemma_sum_is_frame_size(sizes: Seq<u8>, cs: Seq<ControllerView>)
    requires
        sizes.len() == cs.len(),
        forall|k: int| 0 <= k < cs.len() ==> (#[trigger] cs[k]).size == sizes[k],
    ensures
        client::byte_sum(sizes) == model::total_size(cs),
    decreases cs.len(),
{
    if cs.len() > 0 {
        assert(cs.last() == cs[cs.len() - 1] && sizes.last() == sizes[sizes.len() - 1]);
        assert forall|k: int| 0 <= k < cs.drop_last().len() implies (
        #[trigger] cs.drop_last()[k]).size == sizes.drop_last()[k] by {
            assert(cs.drop_last()[k] == cs[k] && sizes.drop_last()[k] == sizes[k]);
        }
        lemma_sum_is_frame_size(sizes.drop_last(), cs.drop_last());
    }
}

/// A client that asks to join brings a buffer that is large enough for a whole frame of its game,
/// and a game that a room can be opened for.
pub proof fn law_request_fits_room(buf: Seq<u8>, request: JoinRequest, room: RoomView)
    requires
        client::login_error(buf) is None,
        client::asks(buf, request),
        room.sized(),
        room.game_info == request.game_info,
    ensures
        request.game_info.total_controllers <= MAX_CONTROLLERS_PER_GAME,
        request@.client.controller_buffer.len() >= model::total_size(room.controllers),
        model::total_size(room.controllers) >= 4 ==> client::login_buffer_len(buf)
            == model::total_size(room.controllers),
{
    let n = request.game_info.total_controllers as int;
    let sizes = request.game_info.controller_data_size@.take(n);
    assert forall|k: int| 0 <= k < room.controllers.len() implies (
    #[trigger] room.controllers[k]).size == sizes[k] by {}
    lemma_sum_is_frame_size(sizes, room.controllers);
}

/// A header ends in its command's code, and the number before it can be read back.
pub proof fn law_header_can_be_read(n: nat, number: u32, cmd: u8)
    requires
        n >= 4,
    ensures
        client::header(n, number as nat, cmd).len() == n + 1,
        client::header(n, number as nat, cmd).last() == cmd,
        bytes::le_value(client::header(n, number as nat, cmd).take(4)) == number,
{
    let h = client::header(n, number as nat, cmd);
    assert(h.take(4) =~= bytes::le_bytes(number as nat));
    bytes::law_le_round_trip(number);
}

/// A client can tell where what a command carries ends: the header gives its length, as long as
/// that fits in 32 bits.
pub proof fn law_body_length_is_told(n: nat, command: CommandView)
    requires
        n >= 4,
        command.payload matches PayloadView::Data(data) ==> data.len() <= u32::MAX,
    ensures
        ({
            let sent = writer::encoded(n, MessageView::Command(command));
            let number = bytes::le_value(sent.take(4));
            &&& sent[n as int] == command.cmd
            &&& command.payload matches PayloadView::Number(x) ==> number == x && sent.len() == n
                + 1
            &&& command.payload matches PayloadView::Data(data) ==> number == data.len()
                && sent.skip((n + 1) as int) == data
        }),
{
    let sent = writer::encoded(n, MessageView::Command(command));
    let number = writer::header_number(command.payload) as u32;
    let h = client::header(n, number as nat, command.cmd);
    law_header_can_be_read(n, number, command.cmd);
    assert(sent.take(4) =~= h.take(4));
    assert(sent.skip((n + 1) as int) =~= writer::body(command.payload));
}

/// Where a frame has room for a number, frames of inputs and headers have the same length, so
/// that a client always knows how much to read: the byte at the end tells which of the two it is.
pub proof fn law_frames_and_headers_have_one_length(n: nat, frame: Seq<u8>, number: nat, cmd: u8)
    requires
        n >= 4,
        frame.len() == n,
    ensures
        writer::encoded(n, MessageView::AllGamepads(frame)).len() == client::header(
            n,
            number,
            cmd,
        ).len(),
        writer::encoded(n, MessageView::AllGamepads(frame))[n as int] == 0,
        client::header(n, number, cmd)[n as int] == cmd,
{
}

/// The reading side hands a room only commands that have a code, that are not idle, and that are
/// not the answers that it deals with itself; and those with a number are exactly those that
/// carry nothing else.
pub proof fn law_forwarded_commands(state: ReaderView, input: Seq<u8>)
    requires
        state.wf(),
        state.wanted() == Some(input.len()),
    ensures
        state.effect(input) matches Some(ReadEffectView::Forward(command)) ==> {
            &&& command.cmd != 0
            &&& command.cmd != commands::NOP
            &&& command.payload is Data ==> command.cmd != commands::INTEGRITY_RES
            &&& command.payload is Number <==> client::reader::number_only(command.cmd)
        },
        state.next(input).wf(),
{
}

/// What four bytes are worth, the first of them least.
pub open spec fn worth(b: Seq<u8>) -> int {
    b[0] + 256 * b[1] + 65536 * b[2] + 16777216 * b[3]
}

/// A frame of inputs goes out byte by byte as it is, with a zero behind it.
pub proof fn law_frame_is_sent_as_it_is(n: nat, data: Seq<u8>, j: int)
    ensures
        ({
            let sent = writer::encoded(n, MessageView::AllGamepads(data));
            &&& sent.len() == data.len() + 1
            &&& 0 <= j < data.len() ==> sent[j] == data[j]
            &&& sent[data.len() as int] == 0
        }),
{
}

/// A command goes out as a number in four bytes, zeros, its code and then what it carries, byte by
/// byte; the number is its own, or the length of what it carries.
pub proof fn law_command_is_sent_as_it_is(n: nat, command: CommandView, j: int)
    requires
        n >= 4,
    ensures
        ({
            let sent = writer::encoded(n, MessageView::Command(command));
            &&& 4 <= j < n ==> sent[j] == 0
            &&& sent[n as int] == command.cmd
            &&& command.payload matches PayloadView::Number(x) ==> sent.len() == n + 1 && worth(
                sent,
            ) == x
            &&& command.payload matches PayloadView::Data(data) ==> {
                &&& sent.len() == n + 1 + data.len()
                &&& worth(sent) == data.len() % 0x1_0000_0000
                &&& 0 <= j < data.len() ==> sent[n + 1 + j] == data[j]
            }
        }),
{
    bytes::law_le_bytes_weigh(writer::header_number(command.payload), Seq::empty());
}

/// A header is a number in four bytes, zeros, and a code.
pub proof fn law_header_bytes(n: nat, number: nat, cmd: u8, j: int)
    requires
        n >= 4,
    ensures
        client::header(n, number, cmd).len() == n + 1,
        worth(client::header(n, number, cmd)) == number % 0x1_0000_0000,
        4 <= j < n ==> client::header(n, number, cmd)[j] == 0,
        client::header(n, number, cmd)[n as int] == cmd,
{
    bytes::law_le_bytes_weigh(number, Seq::empty());
}

/// A buffer that is brought to another size keeps its bytes as far as they go, and has zeros
/// behind them.
pub proof fn law_resized_buffer(buffer: Seq<u8>, n: nat, j: int)
    ensures
        reader::resized(buffer, n).len() == n,
        0 <= j < n ==> reader::resized(buffer, n)[j] == if j < buffer.len() {
            buffer[j]
        } else {
            0
        },
{
}

/// How much is read: a code and the input, the four bytes of a number, or a body of the length
/// that its number gave.
pub proof fn law_how_much_is_read(state: ReaderView)
    ensures
        state.phase == ReadPhase::InputSize ==> state.wanted() is None,
        state.phase == ReadPhase::Frame ==> state.wanted() == Some(state.input_len + 1),
        state.phase is Number ==> state.wanted() == Some(4nat),
        state.phase matches ReadPhase::Body(cmd, n) ==> state.wanted() == Some(n as nat),
{
}

/// A frame with code zero is the client's new input, byte by byte; one with another code leaves
/// the input alone, and the number of that command is read next. Neither has an effect.
pub proof fn law_frame_is_taken(state: ReaderView, input: Seq<u8>, buffer: Seq<u8>, j: int)
    requires
        state.phase == ReadPhase::Frame,
        input.len() == state.input_len + 1,
    ensures
        state.effect(input) is None,
        state.next(input).input_len == state.input_len,
        input[0] == 0 ==> {
            &&& state.next(input).phase == ReadPhase::Frame
            &&& state.buffer(input, buffer).len() == state.input_len
            &&& 0 <= j < state.input_len ==> state.buffer(input, buffer)[j] == input[j + 1]
        },
        input[0] != 0 ==> {
            &&& state.next(input).phase == ReadPhase::Number(input[0])
            &&& state.buffer(input, buffer) == buffer
        },
{
}

/// A command with a number and nothing else is handed on as it is, unless it is the idle one; all
/// others wait for as many bytes as the number says. The client's input stays.
pub proof fn law_number_is_forwarded(
    state: ReaderView,
    cmd: u8,
    input: Seq<u8>,
    buffer: Seq<u8>,
)
    requires
        state.phase == ReadPhase::Number(cmd),
        input.len() == 4,
    ensures
        state.buffer(input, buffer) == buffer,
        state.next(input).input_len == state.input_len,
        (cmd < 0x80 || cmd == 0x95) && cmd != 0x41 ==> state.effect(input) == Some(
            ReadEffectView::Forward(
                CommandView { cmd, payload: PayloadView::Number(worth(input) as u32) },
            ),
        ),
        cmd == 0x41 ==> state.effect(input) is None,
        cmd < 0x80 || cmd == 0x95 ==> state.next(input).phase == if cmd == 0x44 {
            ReadPhase::InputSize
        } else {
            ReadPhase::Frame
        },
        cmd >= 0x80 && cmd != 0x95 ==> {
            &&& state.effect(input) is None
            &&& state.next(input).phase == ReadPhase::Body(cmd, worth(input) as usize)
        },
{
}

/// What a command carries is handed on byte by byte, but for the answer to a test of integrity,
/// whose digest is logged instead. A frame is read next, and the client's input stays.
pub proof fn law_body_is_forwarded(
    state: ReaderView,
    cmd: u8,
    input: Seq<u8>,
    buffer: Seq<u8>,
)
    requires
        state.phase == ReadPhase::Body(cmd, input.len() as usize),
        input.len() <= usize::MAX,
    ensures
        state.buffer(input, buffer) == buffer,
        state.next(input) == (ReaderView {
            phase: ReadPhase::Frame,
            input_len: state.input_len,
        }),
        cmd != 0x96 ==> state.effect(input) == Some(
            ReadEffectView::Forward(CommandView { cmd, payload: PayloadView::Data(input) }),
        ),
        cmd == 0x96 ==> state.effect(input) == Some(
            ReadEffectView::Log(text::hex(digest::md5_digest(input))),
        ),
{
}

/// A command that a client sends in the form in which it would get it from the server, but with
/// its code first, comes through to the room unchanged, and the next frame is read after it.
pub proof fn law_command_comes_through(
    state: ReaderView,
    frame: Seq<u8>,
    number: Seq<u8>,
    data: Seq<u8>,
)
    requires
        state.phase == ReadPhase::Frame,
        frame.len() == state.input_len + 1,
        frame[0] != 0,
        frame[0] != 0x41,
        frame[0] != 0x44,
        frame[0] != 0x96,
        number.len() == 4,
    ensures
        ({
            let named = state.next(frame);
            let numbered = named.next(number);
            if frame[0] < 0x80 || frame[0] == 0x95 {
                &&& numbered == state
                &&& named.effect(number) == Some(
                    ReadEffectView::Forward(
                        CommandView {
                            cmd: frame[0],
                            payload: PayloadView::Number(worth(number) as u32),
                        },
                    ),
                )
            } else {
                data.len() == worth(number) ==> {
                    &&& numbered.wanted() == Some(data.len())
                    &&& numbered.next(data) == state
                    &&& numbered.effect(data) == Some(
                        ReadEffectView::Forward(
                            CommandView { cmd: frame[0], payload: PayloadView::Data(data) },
                        ),
                    )
                }
            }
        }),
{
}

/// What a writer puts out for a frame of inputs: its bytes as they are, a zero behind them, and the
/// wish to have them leave at once.
pub proof fn law_writer_puts_out_frames(
    writer: &mut ClientWriter,
    data: Arc<[u8]>,
    r: Outgoing,
    j: int,
)
    requires
        call_ensures(ClientWriter::encode, (writer, &Message::AllGamepads(data)), r),
    ensures
        r.bytes@.len() == data@.len() + 1,
        0 <= j < data@.len() ==> r.bytes@[j] == data@[j],
        r.bytes@[data@.len() as int] == 0,
        r.flush,
        final(writer)@ == old(writer)@,
{
    law_frame_is_sent_as_it_is(old(writer)@, data@, j);
}

/// What a writer puts out for a command: a number in four bytes, zeros, the code, then what the
/// command carries. It may wait.
pub proof fn law_writer_puts_out_commands(
    writer: &mut ClientWriter,
    command: Command,
    r: Outgoing,
    j: int,
)
    requires
        writer@ >= 4,
        call_ensures(ClientWriter::encode, (writer, &Message::Command(command)), r),
    ensures
        ({
            let n = old(writer)@;
            &&& 4 <= j < n ==> r.bytes@[j] == 0
            &&& r.bytes@[n as int] == command.cmd
            &&& command.payload matches Payload::Number(x) ==> r.bytes@.len() == n + 1 && worth(
                r.bytes@,
            ) == x
            &&& command.payload matches Payload::Data(data) ==> {
                &&& r.bytes@.len() == n + 1 + data@.len()
                &&& worth(r.bytes@) == data@.len() % 0x1_0000_0000
                &&& 0 <= j < data@.len() ==> r.bytes@[n + 1 + j] == data@[j]
            }
        }),
        !r.flush,
        final(writer)@ == old(writer)@,
{
    law_command_is_sent_as_it_is(old(writer)@, command@, j);
}

/// What a reader makes of a number: the command with that number and nothing else, unless it is
/// the idle one, or else the wish for as many bytes. The client's input stays.
pub proof fn law_reader_forwards_numbers(
    reader: &mut ClientReader,
    input: Vec<u8>,
    buffer: &mut Vec<u8>,
    cmd: u8,
    r: Option<ReadEffect>,
)
    requires
        reader@.phase == ReadPhase::Number(cmd),
        input@.len() == 4,
        call_ensures(ClientReader::on_bytes, (reader, input, buffer), r),
    ensures
        final(buffer)@ == old(buffer)@,
        (cmd < 0x80 || cmd == 0x95) && cmd != 0x41 ==> (r matches Some(
            ReadEffect::Forward(Command { cmd: c, payload: Payload::Number(n) }),
        ) && c == cmd && n == worth(input@)),
        cmd == 0x41 || (cmd >= 0x80 && cmd != 0x95) ==> r is None,
        cmd >= 0x80 && cmd != 0x95 ==> final(reader)@.phase == ReadPhase::Body(
            cmd,
            worth(input@) as usize,
        ),
        cmd < 0x80 || cmd == 0x95 ==> final(reader)@.phase == if cmd == 0x44 {
            ReadPhase::InputSize
        } else {
            ReadPhase::Frame
        },
        final(reader)@.input_len == old(reader)@.input_len,
{
    law_number_is_forwarded(old(reader)@, cmd, input@, old(buffer)@);
}

/// What a reader makes of what a command carries: the command with these bytes, but for the answer
/// to a test of integrity. The client's input stays, and a frame is read next.
pub proof fn law_reader_forwards_bodies(
    reader: &mut ClientReader,
    input: Vec<u8>,
    buffer: &mut Vec<u8>,
    cmd: u8,
    r: Option<ReadEffect>,
)
    requires
        reader@.phase == ReadPhase::Body(cmd, input@.len() as usize),
        input@.len() <= usize::MAX,
        call_ensures(ClientReader::on_bytes, (reader, input, buffer), r),
    ensures
        final(buffer)@ == old(buffer)@,
        cmd != 0x96 ==> (r matches Some(
            ReadEffect::Forward(Command { cmd: c, payload: Payload::Data(data) }),
        ) && c == cmd && data@ == input@),
        cmd == 0x96 ==> (r matches Some(ReadEffect::Log(line)) && line@ == text::hex(
            digest::md5_digest(input@),
        )),
        final(reader)@.phase == ReadPhase::Frame,
        final(reader)@.input_len == old(reader)@.input_len,
{
    law_body_is_forwarded(old(reader)@, cmd, input@, old(buffer)@);
}

/// What a reader makes of a frame: the client's new input where its code is zero, and else the
/// wish for the number of the command with that code. Nothing follows from it.
pub proof fn law_reader_takes_frames(
    reader: &mut ClientReader,
    input: Vec<u8>,
    buffer: &mut Vec<u8>,
    r: Option<ReadEffect>,
    j: int,
)
    requires
        reader@.phase == ReadPhase::Frame,
        input@.len() == reader@.input_len + 1,
        call_ensures(ClientReader::on_bytes, (reader, input, buffer), r),
    ensures
        r is None,
        final(reader)@.input_len == old(reader)@.input_len,
        input@[0] == 0 ==> {
            &&& final(reader)@.phase == ReadPhase::Frame
            &&& final(buffer)@.len() == input@.len() - 1
            &&& 0 <= j < input@.len() - 1 ==> final(buffer)@[j] == input@[j + 1]
        },
        input@[0] != 0 ==> {
            &&& final(reader)@.phase == ReadPhase::Number(input@[0])
            &&& final(buffer)@ == old(buffer)@
        },
{
    law_frame_is_taken(old(reader)@, input@, old(buffer)@, j);
}

/// What a reader makes of the size of the client's input: it reads frames of that size from then
/// on, and the client's input keeps its bytes as far as they go, with zeros behind them.
pub proof fn law_reader_takes_input_size(
    reader: &mut ClientReader,
    size: usize,
    buffer: &mut Vec<u8>,
    j: int,
)
    requires
        call_ensures(ClientReader::on_input_size, (reader, size, buffer), ()),
    ensures
        final(reader)@.phase == ReadPhase::Frame,
        final(reader)@.input_len == size,
        final(buffer)@.len() == size,
        0 <= j < size ==> final(buffer)@[j] == if j < old(buffer)@.len() {
            old(buffer)@[j]
        } else {
            0
        },
{
    law_resized_buffer(old(buffer)@, size as nat, j);
}

} // verus!
