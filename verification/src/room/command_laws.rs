use std::sync::Arc;
use vstd::prelude::*;

use crate::bytes;
use crate::room;
use crate::room::model::{EffectView, RoomView};
use crate::room::{Effect, Room};
use crate::text;
use crate::types::{ClientView, Command, CommandView, Message, MessageView, Payload, PayloadView};

verus! {

/// What follows from a text is that every client gets it, in their order, each with the length of
/// its speaker's name and the name before it. The room stays as it is.
pub proof fn law_chat_names_its_speaker(room: RoomView, from: int, text: Seq<u8>, m: int)
    requires
        0 <= from < room.clients.len(),
        0 <= m < room.clients.len(),
    ensures
        ({
            let said = CommandView { cmd: 0x90, payload: PayloadView::Data(text) };
            let name = room.clients[from].nickname;
            let effects = room.command_effects(from, said);
            &&& room.after_command(from, said) == room
            &&& effects.len() == room.clients.len()
            &&& effects[m] matches EffectView::Send { to, message: MessageView::Command(heard) }
            &&& to == room.clients[m].id
            &&& heard.cmd == 0x90
            &&& heard.payload matches PayloadView::Data(line)
            &&& line.len() == 4 + name.len() + text.len()
            &&& line[0] + 256 * line[1] + 65536 * line[2] + 16777216 * line[3] == name.len()
                % 0x1_0000_0000
            &&& line.subrange(4, 4 + name.len() as int) == name
            &&& line.skip(4 + name.len() as int) == text
        }),
{
    let said = CommandView { cmd: 0x90, payload: PayloadView::Data(text) };
    let name = room.clients[from].nickname;
    bytes::law_le_bytes_weigh(name.len(), Seq::empty());
    let sent = room.command_effects(from, said)[m];
    if let EffectView::Send { message: MessageView::Command(heard), .. } = sent {
        if let PayloadView::Data(line) = heard.payload {
            assert(line.subrange(4, 4 + name.len() as int) =~= name);
            assert(line.skip(4 + name.len() as int) =~= text);
        }
    }
}

/// A command to the console, such as power or reset, goes to every client as it is, in their
/// order, the sender among them. The room stays as it is.
pub proof fn law_console_command_goes_to_everybody(
    room: RoomView,
    from: int,
    cmd: u8,
    n: u32,
    m: int,
)
    requires
        0 <= from < room.clients.len(),
        0 <= m < room.clients.len(),
        cmd <= 0x3F,
    ensures
        ({
            let command = CommandView { cmd, payload: PayloadView::Number(n) };
            let effects = room.command_effects(from, command);
            &&& room.after_command(from, command) == room
            &&& effects.len() == room.clients.len()
            &&& effects[m] == (EffectView::Send {
                to: room.clients[m].id,
                message: MessageView::Command(command),
            })
        }),
{
}

/// An echo goes back to its sender and to nobody else, as it came but for what is beyond 256
/// bytes. The room stays as it is.
pub proof fn law_echo_comes_back(room: RoomView, from: int, data: Seq<u8>, j: int)
    requires
        0 <= from < room.clients.len(),
    ensures
        ({
            let command = CommandView { cmd: 0x94, payload: PayloadView::Data(data) };
            let effects = room.command_effects(from, command);
            &&& room.after_command(from, command) == room
            &&& effects.len() == 1
            &&& effects[0] matches EffectView::Send { to, message: MessageView::Command(back) }
            &&& to == room.clients[from].id
            &&& back.cmd == 0x94
            &&& back.payload matches PayloadView::Data(echo)
            &&& data.len() <= 256 ==> echo.len() == data.len()
            &&& data.len() > 256 ==> echo.len() == 256
            &&& 0 <= j < echo.len() ==> echo[j] == data[j]
        }),
{
}

/// A command that sets the rate does so, is told to whoever keeps the clock, and changes nothing
/// else.
pub proof fn law_rate_is_taken(room: RoomView, from: int, n: u32)
    requires
        0 <= from < room.clients.len(),
    ensures
        ({
            let command = CommandView { cmd: 0x40, payload: PayloadView::Number(n) };
            let after = room.after_command(from, command);
            &&& after.rate == n
            &&& after.clients == room.clients
            &&& after.controllers == room.controllers
            &&& after.game_info == room.game_info
            &&& room.command_effects(from, command) == seq![EffectView::SetRate(n)]
        }),
{
}

/// Whoever says goodbye counts as dead at once, and nothing else changes. Nobody is told.
pub proof fn law_goodbye_is_quiet(room: RoomView, from: int, data: Seq<u8>, m: int)
    requires
        0 <= from < room.clients.len(),
        0 <= m < room.clients.len(),
    ensures
        ({
            let command = CommandView { cmd: 0xFF, payload: PayloadView::Data(data) };
            let after = room.after_command(from, command);
            &&& room.command_effects(from, command).len() == 0
            &&& after.clients.len() == room.clients.len()
            &&& after.clients[m] == if m == from {
                ClientView { dead: true, ..room.clients[m] }
            } else {
                room.clients[m]
            }
            &&& after.controllers == room.controllers
            &&& after.game_info == room.game_info
            &&& after.rate == room.rate
        }),
{
}

/// All other commands are logged by their code, and change nothing.
pub proof fn law_unknown_command_is_logged(room: RoomView, from: int, command: CommandView)
    requires
        0 <= from < room.clients.len(),
        command.payload is Number ==> command.cmd > 0x40,
        command.payload is Data ==> command.cmd != 0x90 && command.cmd != 0x94 && command.cmd
            != 0xFF,
    ensures
        room.after_command(from, command) == room,
        room.command_effects(from, command) == seq![
            EffectView::Log("Unknown command "@ + text::prefixed_hex(command.cmd)),
        ],
{
}

/// What a room makes of a text: one message to each client, in their order, which splits into the
/// length of the sender's name, the name, and the text.
pub proof fn law_room_passes_chat_on(
    room: &mut Room,
    from: usize,
    text: Arc<[u8]>,
    effects: Vec<Effect>,
    m: int,
)
    requires
        from < room@.clients.len(),
        0 <= m < room@.clients.len(),
        call_ensures(
            Room::handle_command,
            (room, from, Command { cmd: 0x90, payload: Payload::Data(text) }),
            effects,
        ),
    ensures
        ({
            let name = old(room)@.clients[from as int].nickname;
            let n = name.len() as int;
            &&& final(room)@ == old(room)@
            &&& effects@.len() == old(room)@.clients.len()
            &&& effects@[m] matches Effect::Send { to, message: Message::Command(heard) }
            &&& to == old(room)@.clients[m].id
            &&& heard.cmd == 0x90
            &&& heard.payload matches Payload::Data(line)
            &&& line@.len() == 4 + n + text@.len()
            &&& line@[0] + 256 * line@[1] + 65536 * line@[2] + 16777216 * line@[3] == name.len()
                % 0x1_0000_0000
            &&& line@.subrange(4, 4 + n) == name
            &&& line@.skip(4 + n) == text@
        }),
{
    law_chat_names_its_speaker(old(room)@, from as int, text@, m);
    assert(room::effects_view(effects@)[m] == effects@[m]@);
}

/// What a room makes of an echo: one message, to the sender, of the bytes up to the limit.
pub proof fn law_room_sends_echo_back(
    room: &mut Room,
    from: usize,
    data: Arc<[u8]>,
    effects: Vec<Effect>,
    j: int,
)
    requires
        from < room@.clients.len(),
        call_ensures(
            Room::handle_command,
            (room, from, Command { cmd: 0x94, payload: Payload::Data(data) }),
            effects,
        ),
    ensures
        final(room)@ == old(room)@,
        effects@.len() == 1,
        ({
            &&& effects@[0] matches Effect::Send { to, message: Message::Command(back) }
            &&& to == old(room)@.clients[from as int].id
            &&& back.cmd == 0x94
            &&& back.payload matches Payload::Data(echo)
            &&& echo@.len() == if data@.len() <= 256 {
                data@.len()
            } else {
                256
            }
            &&& 0 <= j < echo@.len() ==> echo@[j] == data@[j]
        }),
{
    law_echo_comes_back(old(room)@, from as int, data@, j);
    assert(room::effects_view(effects@).len() == effects@.len());
    assert(room::effects_view(effects@)[0] == effects@[0]@);
}

/// What a room makes of a command to the console: the same command to each client, in their order.
pub proof fn law_room_passes_console_commands_on(
    room: &mut Room,
    from: usize,
    cmd: u8,
    n: u32,
    effects: Vec<Effect>,
    m: int,
)
    requires
        cmd <= 0x3F,
        from < room@.clients.len(),
        0 <= m < room@.clients.len(),
        call_ensures(
            Room::handle_command,
            (room, from, Command { cmd, payload: Payload::Number(n) }),
            effects,
        ),
    ensures
        final(room)@ == old(room)@,
        effects@.len() == old(room)@.clients.len(),
        ({
            &&& effects@[m] matches Effect::Send { to, message: Message::Command(heard) }
            &&& to == old(room)@.clients[m].id
            &&& heard.cmd == cmd
            &&& heard.payload == Payload::Number(n)
        }),
{
    law_console_command_goes_to_everybody(old(room)@, from as int, cmd, n, m);
    assert(room::effects_view(effects@).len() == effects@.len());
    assert(room::effects_view(effects@)[m] == effects@[m]@);
}

} // verus!
