use vstd::arithmetic::power2;
use vstd::prelude::*;

use crate::bytes;
use crate::room::DEFAULT_FPS;
use crate::text;
use crate::types::commands;
use crate::types::{
    ClientView, CommandView, GameInfo, JoinView, MessageView, PayloadView, MAX_CLIENTS_PER_GAME,
    MAX_CONTROLLERS_PER_GAME,
};

verus! {

/// A controller port: how many bytes of input it has in a frame, and who plays on it.
pub struct ControllerView {
    pub size: nat,
    pub owners: Seq<usize>,
}

/// The state of a room.
pub struct RoomView {
    pub clients: Seq<ClientView>,
    pub game_info: GameInfo,
    pub controllers: Seq<ControllerView>,
    /// The room runs `FPS_FACTOR / rate` seconds apart.
    pub rate: u32,
}

/// Something that a room asks of the world around it.
pub enum EffectView {
    /// Tell a client how many bytes of input it has to send in a frame.
    InputSize { to: usize, size: nat },
    /// Hand a message to a client.
    Send { to: usize, message: MessageView },
    /// Answer a join request.
    Reply(Result<(), Seq<char>>),
    /// Run `FPS_FACTOR / n` seconds apart from now on.
    SetRate(u32),
    /// Write a line to the log.
    Log(Seq<char>),
}

/// The bytes of input in a frame.
pub open spec fn total_size(cs: Seq<ControllerView>) -> nat
    decreases cs.len(),
{
    if cs.len() == 0 {
        0
    } else {
        total_size(cs.drop_last()) + cs.last().size
    }
}

/// The bytes of input in a frame that come from the client `id`.
pub open spec fn owned_size(cs: Seq<ControllerView>, id: usize) -> nat
    decreases cs.len(),
{
    if cs.len() == 0 {
        0
    } else {
        owned_size(cs.drop_last(), id) + if cs.last().owners.contains(id) {
            cs.last().size
        } else {
            0
        }
    }
}

/// The number whose bit `k` is set exactly where the client `id` plays on controller `k`.
pub open spec fn mps_bits(cs: Seq<ControllerView>, id: usize) -> nat
    decreases cs.len(),
{
    if cs.len() == 0 {
        0
    } else {
        mps_bits(cs.drop_last(), id) + if cs.last().owners.contains(id) {
            power2::pow2((cs.len() - 1) as nat)
        } else {
            0
        }
    }
}

/// How many controllers nobody plays on.
pub open spec fn unowned(cs: Seq<ControllerView>) -> nat
    decreases cs.len(),
{
    if cs.len() == 0 {
        0
    } else {
        unowned(cs.drop_last()) + if cs.last().owners.len() == 0 {
            1nat
        } else {
            0
        }
    }
}

/// The controllers once the first `n` of those that nobody plays on have gone to `id`.
pub open spec fn assign(cs: Seq<ControllerView>, id: usize, n: nat) -> Seq<ControllerView> {
    Seq::new(
        cs.len(),
        |k: int|
            if cs[k].owners.len() == 0 && unowned(cs.take(k)) < n {
                ControllerView { size: cs[k].size, owners: seq![id] }
            } else {
                cs[k]
            },
    )
}

/// The largest id in use, or 0.
pub open spec fn max_id(clients: Seq<ClientView>) -> nat
    decreases clients.len(),
{
    if clients.len() == 0 {
        0
    } else if clients.last().id > max_id(clients.drop_last()) {
        clients.last().id as nat
    } else {
        max_id(clients.drop_last())
    }
}

/// The id that the next client to join gets.
pub open spec fn next_id(clients: Seq<ClientView>) -> nat {
    max_id(clients) + 1
}

/// What the clients are told of a newcomer: its controllers, four bytes left empty, its name.
pub open spec fn join_notice(mps: nat, nickname: Seq<u8>) -> Seq<u8> {
    bytes::le_bytes(mps) + bytes::zeros(4) + nickname
}

/// A chat line: the length of the speaker's name, the name, the text.
pub open spec fn chat_line(nickname: Seq<u8>, text: Seq<u8>) -> Seq<u8> {
    bytes::le_bytes(nickname.len()) + nickname + text
}

/// The same command to every client, in their order.
pub open spec fn broadcast(clients: Seq<ClientView>, command: CommandView) -> Seq<EffectView> {
    clients.map_values(
        |c: ClientView| EffectView::Send { to: c.id, message: MessageView::Command(command) },
    )
}

/// What is written to the log of a command that the room does not know.
pub open spec fn unknown_command(cmd: u8) -> Seq<char> {
    "Unknown command "@ + text::prefixed_hex(cmd)
}

/// The longest echo that a client gets back.
pub const MAX_ECHO_LEN: usize = 256;

/// The input `buf` of the client `id`, laid out over the bytes of a whole frame: each controller
/// that it plays on takes its bytes from `buf` in turn, the others are zero.
pub open spec fn spread(cs: Seq<ControllerView>, id: usize, buf: Seq<u8>) -> Seq<u8>
    decreases cs.len(),
{
    if cs.len() == 0 {
        Seq::empty()
    } else {
        let front = cs.drop_last();
        let at = owned_size(front, id) as int;
        spread(front, id, buf) + if cs.last().owners.contains(id) {
            buf.subrange(at, at + cs.last().size)
        } else {
            bytes::zeros(cs.last().size)
        }
    }
}

/// Two frames combined bit by bit.
pub open spec fn or_bytes(a: Seq<u8>, b: Seq<u8>) -> Seq<u8> {
    Seq::new(a.len(), |p: int| a[p] | b[p])
}

/// The frame of inputs that all the clients together produce.
pub open spec fn merged(clients: Seq<ClientView>, cs: Seq<ControllerView>) -> Seq<u8>
    decreases clients.len(),
{
    if clients.len() == 0 {
        bytes::zeros(total_size(cs))
    } else {
        or_bytes(
            merged(clients.drop_last(), cs),
            spread(cs, clients.last().id, clients.last().controller_buffer),
        )
    }
}

/// Whether `id` is the id of one of the clients.
pub open spec fn is_member(clients: Seq<ClientView>, id: usize) -> bool {
    exists|i: int| 0 <= i < clients.len() && (#[trigger] clients[i]).id == id
}

/// Whether `id` is the id of one of the clients, and that client is dead.
pub open spec fn is_dead(clients: Seq<ClientView>, id: usize) -> bool {
    exists|i: int| 0 <= i < clients.len() && (#[trigger] clients[i]).id == id && clients[i].dead
}

/// The test for a client that is not dead.
pub open spec fn is_living() -> spec_fn(ClientView) -> bool {
    |c: ClientView| !c.dead
}

/// The test for an id that no dead client has.
pub open spec fn is_spared(clients: Seq<ClientView>) -> spec_fn(usize) -> bool {
    |id: usize| !is_dead(clients, id)
}

/// The clients that are not dead.
pub open spec fn living(clients: Seq<ClientView>) -> Seq<ClientView> {
    clients.filter(is_living())
}

/// A controller without the owners that are dead clients.
pub open spec fn released(c: ControllerView, clients: Seq<ClientView>) -> ControllerView {
    ControllerView { size: c.size, owners: c.owners.filter(is_spared(clients)) }
}

impl RoomView {
    /// The controllers are those of the game.
    pub open spec fn sized(self) -> bool {
        &&& self.game_info.total_controllers <= MAX_CONTROLLERS_PER_GAME
        &&& self.controllers.len() == self.game_info.total_controllers
        &&& forall|k: int| 0 <= k < self.controllers.len() ==> (#[trigger] self.controllers[k]).size
            == self.game_info.controller_data_size@[k]
    }

    /// What holds of a room at all times: its controllers are those of the game, each has at most
    /// one owner, every owner is a client, and no two clients share an id.
    pub open spec fn wf(self) -> bool {
        &&& self.sized()
        &&& forall|k: int|
            0 <= k < self.controllers.len() ==> (#[trigger] self.controllers[k]).owners.len() <= 1
        &&& forall|k: int, id: usize|
            0 <= k < self.controllers.len() && #[trigger] self.controllers[k].owners.contains(id)
                ==> is_member(self.clients, id)
        &&& forall|i: int| 0 <= i < self.clients.len() ==> (#[trigger] self.clients[i]).id >= 1
        &&& forall|i: int, j: int|
            0 <= i < j < self.clients.len() ==> (#[trigger] self.clients[i]).id != (
            #[trigger] self.clients[j]).id
    }

    /// Every client has given at least as many bytes of input as its controllers take.
    pub open spec fn buffers_fit(self) -> bool {
        forall|i: int|
            0 <= i < self.clients.len() ==> (#[trigger] self.clients[i]).controller_buffer.len()
                >= owned_size(self.controllers, self.clients[i].id)
    }

    /// The room before anybody has joined, at the rate that nobody has set.
    pub open spec fn empty(game_info: GameInfo) -> RoomView {
        RoomView {
            clients: Seq::empty(),
            game_info,
            controllers: Seq::new(
                game_info.total_controllers as nat,
                |k: int|
                    ControllerView {
                        size: game_info.controller_data_size@[k] as nat,
                        owners: Seq::empty(),
                    },
            ),
            rate: DEFAULT_FPS,
        }
    }

    /// The room with one more client, which plays on as many free controllers as it asks for and
    /// there are.
    pub open spec fn with_client(self, request: JoinView) -> RoomView {
        let id = next_id(self.clients) as usize;
        RoomView {
            clients: self.clients.push(ClientView { id, ..request.client }),
            game_info: self.game_info,
            controllers: assign(self.controllers, id, request.local_players),
            rate: self.rate,
        }
    }

    /// What follows from taking a client in: it learns the size of its input, everybody learns of
    /// it, and its request is answered.
    pub open spec fn client_effects(self, request: JoinView) -> Seq<EffectView> {
        let id = next_id(self.clients) as usize;
        let after = self.with_client(request);
        let notice = join_notice(mps_bits(after.controllers, id), request.client.nickname);
        seq![EffectView::InputSize { to: id, size: owned_size(after.controllers, id) }]
            + after.clients.map_values(
            |c: ClientView|
                EffectView::Send {
                    to: c.id,
                    message: MessageView::Command(
                        CommandView {
                            cmd: if c.id == id {
                                commands::YOUJOINED
                            } else {
                                commands::PLAYERJOINED
                            },
                            payload: PayloadView::Data(notice),
                        },
                    ),
                },
        ) + seq![EffectView::Reply(Ok(()))]
    }

    /// Why a join request is turned down, if it is.
    pub open spec fn refusal(self, request: JoinView) -> Option<Seq<char>> {
        if self.clients.len() >= MAX_CLIENTS_PER_GAME {
            Some("Sorry, game is full."@)
        } else if request.game_info != self.game_info {
            Some("Your game info is invalid."@)
        } else {
            None
        }
    }

    /// The room once a join request has been dealt with.
    pub open spec fn after_join(self, request: JoinView) -> RoomView {
        if self.refusal(request) is Some {
            self
        } else {
            self.with_client(request)
        }
    }

    /// What follows from a join request.
    pub open spec fn join_effects(self, request: JoinView) -> Seq<EffectView> {
        match self.refusal(request) {
            Some(reason) => seq![EffectView::Reply(Err(reason))],
            None => self.client_effects(request),
        }
    }

    /// The room once the client at position `i` counts as dead.
    pub open spec fn with_dead(self, i: int) -> RoomView {
        RoomView {
            clients: self.clients.update(i, ClientView { dead: true, ..self.clients[i] }),
            ..self
        }
    }

    /// The room once a command of the client at position `i` has been dealt with.
    pub open spec fn after_command(self, i: int, command: CommandView) -> RoomView {
        match command.payload {
            PayloadView::Number(n) if command.cmd == commands::SETFPS => RoomView {
                rate: n,
                ..self
            },
            PayloadView::Data(data) if command.cmd == commands::QUIT => self.with_dead(i),
            _ => self,
        }
    }

    /// What follows from a command of the client at position `i`.
    pub open spec fn command_effects(self, i: int, command: CommandView) -> Seq<EffectView> {
        match command.payload {
            PayloadView::Number(n) => if command.cmd <= 0x3F {
                broadcast(self.clients, command)
            } else if command.cmd == commands::SETFPS {
                seq![EffectView::SetRate(n)]
            } else {
                seq![EffectView::Log(unknown_command(command.cmd))]
            },
            PayloadView::Data(data) => if command.cmd == commands::TEXT {
                broadcast(
                    self.clients,
                    CommandView {
                        cmd: commands::TEXT,
                        payload: PayloadView::Data(chat_line(self.clients[i].nickname, data)),
                    },
                )
            } else if command.cmd == commands::ECHO {
                let echo = if data.len() <= MAX_ECHO_LEN {
                    data
                } else {
                    data.take(MAX_ECHO_LEN as int)
                };
                seq![
                    EffectView::Send {
                        to: self.clients[i].id,
                        message: MessageView::Command(
                            CommandView { cmd: commands::ECHO, payload: PayloadView::Data(echo) },
                        ),
                    },
                ]
            } else if command.cmd == commands::QUIT {
                seq![]
            } else {
                seq![EffectView::Log(unknown_command(command.cmd))]
            },
        }
    }

    /// The room with fresh inputs, one for each client in their order.
    pub open spec fn with_inputs(self, inputs: Seq<Seq<u8>>) -> RoomView {
        RoomView {
            clients: Seq::new(
                self.clients.len(),
                |i: int| ClientView { controller_buffer: inputs[i], ..self.clients[i] },
            ),
            ..self
        }
    }

    /// The current frame of inputs to every client, in their order.
    pub open spec fn input_effects(self) -> Seq<EffectView> {
        let frame = merged(self.clients, self.controllers);
        self.clients.map_values(
            |c: ClientView| EffectView::Send { to: c.id, message: MessageView::AllGamepads(frame) },
        )
    }

    /// The room once the clients that a frame did not reach count as dead.
    pub open spec fn with_unreached(self, reached: Seq<bool>) -> RoomView {
        RoomView {
            clients: Seq::new(
                self.clients.len(),
                |i: int|
                    ClientView { dead: self.clients[i].dead || !reached[i], ..self.clients[i] },
            ),
            ..self
        }
    }

    /// The room without its dead clients, whose controllers are free again.
    pub open spec fn without_dead(self) -> RoomView {
        RoomView {
            clients: living(self.clients),
            game_info: self.game_info,
            controllers: Seq::new(
                self.controllers.len(),
                |k: int| released(self.controllers[k], self.clients),
            ),
            rate: self.rate,
        }
    }
}

} // verus!
