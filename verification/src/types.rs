use std::sync::Arc;
use vstd::prelude::*;
use vstd::std_specs::cmp::PartialEqSpecImpl;

use crate::bytes::same_bytes;

pub mod commands;
pub mod laws;

verus! {

pub const MAX_NICK_LEN: usize = 150;
pub const MAX_CLIENTS_PER_GAME: usize = 32;
pub const MAX_CONTROLLERS_PER_GAME: usize = 16;

pub const MAX_TOTAL_CONTROLLERS_DATA_SIZE: usize = 512;

pub const LOGIN_DATA_MINSIZE: usize = 97;

/// The protocol revision that a client speaks.
#[derive(Clone, Copy, Debug, PartialEq, Eq, Hash, PartialOrd, Ord, Structural)]
pub enum Protocol {
    V1,
    V2,
    V3,
}

/// The digest that names a game.
pub type GameID = [u8; 16];

/// What all the clients of a game must agree on.
#[derive(Clone, Copy, Debug, Eq, Hash)]
pub struct GameInfo {
    pub protocol: Protocol,
    pub emu_id: [u8; 64],
    pub total_controllers: usize,
    pub controller_type: [u8; 16],
    pub controller_data_size: [u8; 16],
}

impl PartialEq for GameInfo {
    fn eq(&self, other: &GameInfo) -> (r: bool) {
        let r: bool = self.protocol == other.protocol
            && self.total_controllers == other.total_controllers
            && same_bytes(self.emu_id.as_slice(), other.emu_id.as_slice())
            && same_bytes(self.controller_type.as_slice(), other.controller_type.as_slice())
            && same_bytes(self.controller_data_size.as_slice(), other.controller_data_size.as_slice());
        proof {
            if r {
                assert(self.emu_id =~= other.emu_id);
                assert(self.controller_type =~= other.controller_type);
                assert(self.controller_data_size =~= other.controller_data_size);
            }
        }
        r
    }
}

impl PartialEqSpecImpl for GameInfo {
    open spec fn obeys_eq_spec() -> bool {
        true
    }

    open spec fn eq_spec(&self, other: &GameInfo) -> bool {
        *self == *other
    }
}

/// One participant of a room, with the controller input that the room last took from it.
#[derive(Debug)]
pub struct ClientData {
    /// Set by the room.
    pub id: usize,
    pub dead: bool,
    pub nickname: Vec<u8>,
    pub controller_buffer: Vec<u8>,
}

/// The contents of a `ClientData`.
pub struct ClientView {
    pub id: usize,
    pub dead: bool,
    pub nickname: Seq<u8>,
    pub controller_buffer: Seq<u8>,
}

impl View for ClientData {
    type V = ClientView;

    open spec fn view(&self) -> ClientView {
        ClientView {
            id: self.id,
            dead: self.dead,
            nickname: self.nickname@,
            controller_buffer: self.controller_buffer@,
        }
    }
}

/// A client's wish to enter the room of a game.
#[derive(Debug)]
pub struct JoinRequest {
    pub game_id: GameID,
    pub game_info: GameInfo,
    pub client_data: ClientData,
    pub local_players: usize,
}

/// The contents of a `JoinRequest`.
pub struct JoinView {
    pub game_id: Seq<u8>,
    pub game_info: GameInfo,
    pub client: ClientView,
    pub local_players: nat,
}

impl View for JoinRequest {
    type V = JoinView;

    open spec fn view(&self) -> JoinView {
        JoinView {
            game_id: self.game_id@,
            game_info: self.game_info,
            client: self.client_data@,
            local_players: self.local_players as nat,
        }
    }
}

/// What a command carries: a number in its header, or bytes behind it.
#[derive(Debug)]
pub enum Payload {
    Number(u32),
    Data(Arc<[u8]>),
}

impl Clone for Payload {
    fn clone(&self) -> (r: Payload)
        ensures
            r == *self,
    {
        match self {
            Payload::Number(n) => Payload::Number(*n),
            Payload::Data(data) => Payload::Data(data.clone()),
        }
    }
}

/// The contents of a `Payload`.
pub enum PayloadView {
    Number(u32),
    Data(Seq<u8>),
}

impl View for Payload {
    type V = PayloadView;

    open spec fn view(&self) -> PayloadView {
        match self {
            Payload::Number(n) => PayloadView::Number(*n),
            Payload::Data(data) => PayloadView::Data(data@),
        }
    }
}

/// An order or a notice, named by its code.
#[derive(Debug)]
pub struct Command {
    pub cmd: u8,
    pub payload: Payload,
}

/// The contents of a `Command`.
pub struct CommandView {
    pub cmd: u8,
    pub payload: PayloadView,
}

impl View for Command {
    type V = CommandView;

    open spec fn view(&self) -> CommandView {
        CommandView { cmd: self.cmd, payload: self.payload@ }
    }
}

impl Clone for Command {
    fn clone(&self) -> (r: Command)
        ensures
            r == *self,
    {
        Command { cmd: self.cmd, payload: self.payload.clone() }
    }
}

/// What a room has to say to a client.
#[derive(Debug)]
pub enum Message {
    Command(Command),
    AllGamepads(Arc<[u8]>),
}

/// The contents of a `Message`.
pub enum MessageView {
    Command(CommandView),
    AllGamepads(Seq<u8>),
}

impl View for Message {
    type V = MessageView;

    open spec fn view(&self) -> MessageView {
        match self {
            Message::Command(command) => MessageView::Command(command@),
            Message::AllGamepads(data) => MessageView::AllGamepads(data@),
        }
    }
}

/// Moves bytes into shared storage. The claim on `Arc::<[u8]>::from(Vec<u8>)` is that the new
/// slice holds the items of the vector, in their order.
#[verifier::external_body]
pub(crate) fn share_bytes(v: Vec<u8>) -> (r: Arc<[u8]>)
    ensures
        r@ == v@,
{
    Arc::from(v)
}

} // verus!
