use vstd::prelude::*;

use crate::types;
use crate::types::commands;
use crate::types::{
    ClientData, Command, CommandView, JoinRequest, Message, MessageView, Payload, PayloadView,
};

verus! {

/// The codes of the commands on the wire.
pub proof fn law_command_codes()
    ensures
        commands::SETFPS == 0x40,
        commands::NOP == 0x41,
        commands::CTRL_CHANGE == 0x43,
        commands::CTRL_CHANGE_ACK == 0x44,
        commands::CTRLR_SWAPNOTIF == 0x68,
        commands::CTRLR_TAKE == 0x70,
        commands::CTRLR_DROP == 0x71,
        commands::CTRLR_DUPE == 0x72,
        commands::CTRLR_SWAP == 0x78,
        commands::REQUEST_LIST == 0x7F,
        commands::LOADSTATE == 0x80,
        commands::REQUEST_STATE == 0x81,
        commands::TEXT == 0x90,
        commands::SERVERTEXT == 0x93,
        commands::ECHO == 0x94,
        commands::INTEGRITY == 0x95,
        commands::INTEGRITY_RES == 0x96,
        commands::SETNICK == 0x98,
        commands::PLAYERJOINED == 0xA0,
        commands::PLAYERLEFT == 0xA1,
        commands::YOUJOINED == 0xB0,
        commands::YOULEFT == 0xB1,
        commands::NICKCHANGED == 0xB8,
        commands::LIST == 0xC0,
        commands::SET_MEDIA == 0xD0,
        commands::CTRLR_TAKE_NOTIF == 0xF0,
        commands::CTRLR_DROP_NOTIF == 0xF1,
        commands::CTRLR_DUPE_NOTIF == 0xF2,
        commands::QUIT == 0xFF,
{
}

/// The limits of the protocol.
pub proof fn law_limits()
    ensures
        types::MAX_NICK_LEN == 150,
        types::MAX_CLIENTS_PER_GAME == 32,
        types::MAX_CONTROLLERS_PER_GAME == 16,
        types::MAX_TOTAL_CONTROLLERS_DATA_SIZE == 512,
        types::LOGIN_DATA_MINSIZE == 97,
{
}

/// The contents of a command are its code and its number or its bytes.
pub proof fn law_command_contents(command: Command)
    ensures
        command@.cmd == command.cmd,
        command.payload matches Payload::Number(n) ==> command@.payload == PayloadView::Number(n),
        command.payload matches Payload::Data(data) ==> command@.payload == PayloadView::Data(
            data@,
        ),
{
}

/// The contents of a message are those of its command, or its bytes.
pub proof fn law_message_contents(message: Message)
    ensures
        message matches Message::Command(c) ==> message@ == MessageView::Command(
            CommandView { cmd: c.cmd, payload: c.payload@ },
        ),
        message matches Message::AllGamepads(data) ==> message@ == MessageView::AllGamepads(data@),
{
}

/// The contents of a client and of a request are those of all their fields.
pub proof fn law_request_contents(request: JoinRequest, client: ClientData)
    ensures
        client@.id == client.id,
        client@.dead == client.dead,
        client@.nickname == client.nickname@,
        client@.controller_buffer == client.controller_buffer@,
        request@.game_id == request.game_id@,
        request@.game_info == request.game_info,
        request@.client == request.client_data@,
        request@.local_players == request.local_players,
{
}

} // verus!
