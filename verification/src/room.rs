use std::sync::Arc;
use vstd::arithmetic::power2;
use vstd::prelude::*;
use vstd::string::StringExecFns;

use crate::bytes;
use crate::room::model::{ControllerView, EffectView, RoomView};
use crate::text;
use crate::types::commands;
use crate::types::{
    share_bytes, ClientData, ClientView, Command, GameInfo, JoinRequest, Message, Payload,
    MAX_CLIENTS_PER_GAME, MAX_CONTROLLERS_PER_GAME,
};

pub mod command_laws;
pub mod join_laws;
pub mod laws;
pub mod model;
mod proofs;
pub mod round_laws;
pub mod run_loop;

verus! {

/// The rate of a room is a number `n`: it runs `FPS_FACTOR / n` seconds apart.
pub const FPS_FACTOR: u32 = 16777216;

/// The rate of a room that nobody has set.
pub const DEFAULT_FPS: u32 = 1008307711;

/// A controller port of a room.
#[derive(Debug)]
pub struct ControllerData {
    pub size: usize,
    pub owners: Vec<usize>,
}

impl View for ControllerData {
    type V = ControllerView;

    open spec fn view(&self) -> ControllerView {
        ControllerView { size: self.size as nat, owners: self.owners@ }
    }
}

/// Something that a room asks of the world around it.
#[derive(Debug)]
pub enum Effect {
    /// Tell a client how many bytes of input it has to send in a frame.
    InputSize { to: usize, size: usize },
    /// Hand a message to a client.
    Send { to: usize, message: Message },
    /// Answer a join request.
    Reply(Result<(), String>),
    /// Run `FPS_FACTOR / n` seconds apart from now on.
    SetRate(u32),
    /// Write a line to the log.
    Log(String),
}

impl View for Effect {
    type V = EffectView;

    open spec fn view(&self) -> EffectView {
        match self {
            Effect::InputSize { to, size } => EffectView::InputSize { to: *to, size: *size as nat },
            Effect::Send { to, message } => EffectView::Send { to: *to, message: message@ },
            Effect::Reply(Ok(())) => EffectView::Reply(Ok(())),
            Effect::Reply(Err(reason)) => EffectView::Reply(Err(reason@)),
            Effect::SetRate(n) => EffectView::SetRate(*n),
            Effect::Log(line) => EffectView::Log(line@),
        }
    }
}

/// The contents of a list of effects.
pub open spec fn effects_view(effects: Seq<Effect>) -> Seq<EffectView> {
    effects.map_values(|e: Effect| e@)
}

proof fn lemma_effects_push(effects: Seq<Effect>, e: Effect)
    ensures
        effects_view(effects.push(e)) == effects_view(effects).push(e@),
{
    assert(effects_view(effects.push(e)) =~= effects_view(effects).push(e@));
}

/// The clients of one game and the controllers that they share.
#[derive(Debug)]
pub struct Room {
    clients: Vec<ClientData>,
    game_info: GameInfo,
    controllers: Vec<ControllerData>,
    rate: u32,
}

closed spec fn clients_view(clients: Seq<ClientData>) -> Seq<ClientView> {
    clients.map_values(|c: ClientData| c@)
}

closed spec fn controllers_view(controllers: Seq<ControllerData>) -> Seq<ControllerView> {
    controllers.map_values(|c: ControllerData| c@)
}

impl View for Room {
    type V = RoomView;

    closed spec fn view(&self) -> RoomView {
        RoomView {
            clients: clients_view(self.clients@),
            game_info: self.game_info,
            controllers: controllers_view(self.controllers@),
            rate: self.rate,
        }
    }
}

/// Whether `id` is among `owners`.
fn owns(owners: &Vec<usize>, id: usize) -> (r: bool)
    ensures
        r == owners@.contains(id),
{
    let mut i: usize = 0;
    while i < owners.len()
        invariant
            i <= owners@.len(),
            forall|j: int| 0 <= j < i ==> owners@[j] != id,
        decreases owners@.len() - i,
    {
        if owners[i] == id {
            return true;
        }
        i = i + 1;
    }
    false
}

impl Room {
    /// The clients, in the order in which they joined.
    pub fn clients(&self) -> (r: &Vec<ClientData>)
        ensures
            r@.map_values(|c: ClientData| c@) == self@.clients,
    {
        &self.clients
    }

    /// The controllers of the game.
    pub fn controllers(&self) -> (r: &Vec<ControllerData>)
        ensures
            r@.map_values(|c: ControllerData| c@) == self@.controllers,
    {
        &self.controllers
    }

    /// The rate of the room: it runs `FPS_FACTOR / rate` seconds apart.
    pub fn rate(&self) -> (r: u32)
        ensures
            r == self@.rate,
    {
        self.rate
    }

    /// How many bytes of input the client `player_id` has to send in a frame.
    pub fn get_controller_buffer_size(&self, player_id: usize) -> (r: usize)
        requires
            self@.sized(),
        ensures
            r == model::owned_size(self@.controllers, player_id),
    {
        let ghost cs = self@.controllers;
        let mut sum: usize = 0;
        let mut i: usize = 0;
        proof {
            proofs::lemma_sizes_bounded(cs, player_id);
        }
        while i < self.controllers.len()
            invariant
                i <= self.controllers@.len(),
                cs == controllers_view(self.controllers@),
                sum == model::owned_size(cs.take(i as int), player_id),
                model::owned_size(cs, player_id) <= 255 * 16,
            decreases self.controllers@.len() - i,
        {
            proof {
                proofs::lemma_take_next(cs, i as int, player_id);
                proofs::lemma_take_bounded(cs, i + 1, player_id);
                assert(cs[i as int] == self.controllers@[i as int]@);
            }
            if owns(&self.controllers[i].owners, player_id) {
                sum = sum + self.controllers[i].size;
            }
            i = i + 1;
        }
        assert(cs.take(i as int) =~= cs);
        sum
    }

    /// Which controllers the client `player_id` plays on, a bit for each.
    pub fn make_mps(&self, player_id: usize) -> (r: [u8; 4])
        requires
            self@.sized(),
        ensures
            r@ == bytes::le_bytes(model::mps_bits(self@.controllers, player_id)),
    {
        let ghost cs = self@.controllers;
        let mut mps: u32 = 0;
        let mut i: usize = 0;
        proof {
            power2::lemma2_to64();
        }
        while i < self.controllers.len()
            invariant
                i <= self.controllers@.len() <= 16,
                cs == controllers_view(self.controllers@),
                mps == model::mps_bits(cs.take(i as int), player_id),
                mps < power2::pow2(i as nat),
            decreases self.controllers@.len() - i,
        {
            proof {
                proofs::lemma_take_next(cs, i as int, player_id);
                proofs::lemma_or_next_bit(mps, i as u32);
                assert(cs[i as int] == self.controllers@[i as int]@);
            }
            if owns(&self.controllers[i].owners, player_id) {
                mps = mps | (1u32 << (i as u32));
            }
            i = i + 1;
        }
        assert(cs.take(i as int) =~= cs);
        bytes::to_le(mps as usize)
    }

    /// Takes a client in, whether or not there is a place for it: it gets the next id and up to
    /// `local_players` free controllers.
    pub fn add_client(&mut self, request: JoinRequest) -> (effects: Vec<Effect>)
        requires
            old(self)@.wf(),
            model::next_id(old(self)@.clients) <= usize::MAX,
        ensures
            final(self)@ == old(self)@.with_client(request@),
            final(self)@.wf(),
            effects_view(effects@) == old(self)@.client_effects(request@),
    {
        let mut client: ClientData = request.client_data;
        let id: usize = self.next_id();
        client.id = id;
        self.assign_controllers(id, request.local_players);
        let mut effects: Vec<Effect> = Vec::new();
        effects.push(Effect::InputSize { to: id, size: self.get_controller_buffer_size(id) });
        let mut notice: Vec<u8> = Vec::new();
        bytes::append_bytes(&mut notice, self.make_mps(id).as_slice());
        notice.resize(8, 0);
        bytes::append_bytes(&mut notice, client.nickname.as_slice());
        let notice: Arc<[u8]> = share_bytes(notice);
        let mut i: usize = 0;
        self.clients.push(client);
        let ghost all = old(self)@.client_effects(request@);
        proof {
            assert(self@.clients =~= old(self)@.with_client(request@).clients);
            proofs::lemma_with_client_wf(old(self)@, request@);
            assert(notice@ =~= model::join_notice(
                model::mps_bits(self@.controllers, id),
                request@.client.nickname,
            ));
            assert(effects_view(effects@) =~= all.take(1));
        }
        while i < self.clients.len()
            invariant
                i <= self.clients@.len(),
                self@ == old(self)@.with_client(request@),
                id == model::next_id(old(self)@.clients),
                all == old(self)@.client_effects(request@),
                notice@ == model::join_notice(
                    model::mps_bits(self@.controllers, id),
                    request@.client.nickname,
                ),
                effects_view(effects@) == all.take(i + 1),
            decreases self.clients@.len() - i,
        {
            let ghost before = effects@;
            let cmd: u8 = if self.clients[i].id == id {
                commands::YOUJOINED
            } else {
                commands::PLAYERJOINED
            };
            effects.push(
                Effect::Send {
                    to: self.clients[i].id,
                    message: Message::Command(
                        Command { cmd, payload: Payload::Data(notice.clone()) },
                    ),
                },
            );
            proof {
                assert(self@.clients[i as int] == self.clients@[i as int]@);
                assert(effects@.last()@ == all[i + 1]);
                lemma_effects_push(before, effects@.last());
                assert(all.take(i + 2) =~= all.take(i + 1).push(all[i + 1]));
            }
            i = i + 1;
        }
        let ghost before = effects@;
        effects.push(Effect::Reply(Ok(())));
        proof {
            lemma_effects_push(before, effects@.last());
            assert(all.take(i + 1).push(all[i + 1]) =~= all);
        }
        effects
    }

    /// The id that the next client to join gets.
    fn next_id(&self) -> (r: usize)
        requires
            model::next_id(self@.clients) <= usize::MAX,
        ensures
            r == model::next_id(self@.clients),
    {
        let ghost cls = self@.clients;
        let mut largest: usize = 0;
        let mut i: usize = 0;
        while i < self.clients.len()
            invariant
                i <= self.clients@.len(),
                cls == clients_view(self.clients@),
                largest == model::max_id(cls.take(i as int)),
            decreases self.clients@.len() - i,
        {
            proof {
                assert(cls.take(i + 1).drop_last() =~= cls.take(i as int));
                assert(cls[i as int] == self.clients@[i as int]@);
            }
            if self.clients[i].id > largest {
                largest = self.clients[i].id;
            }
            i = i + 1;
        }
        assert(cls.take(i as int) =~= cls);
        largest + 1
    }

    /// Gives the first `n` controllers that nobody plays on to `id`.
    fn assign_controllers(&mut self, id: usize, n: usize)
        ensures
            final(self)@ == (RoomView {
                controllers: model::assign(old(self)@.controllers, id, n as nat),
                ..old(self)@
            }),
    {
        let ghost cs = self@.controllers;
        let mut taken: usize = 0;
        let mut i: usize = 0;
        while i < self.controllers.len()
            invariant
                i <= self.controllers@.len(),
                cs == old(self)@.controllers,
                self.controllers@.len() == cs.len(),
                self.clients@ == old(self).clients@,
                self.game_info == old(self).game_info,
                self.rate == old(self).rate,
                taken <= n,
                taken < n ==> taken == model::unowned(cs.take(i as int)),
                taken == n ==> n <= model::unowned(cs.take(i as int)),
                forall|k: int|
                    0 <= k < i ==> (#[trigger] self.controllers@[k])@ == model::assign(
                        cs,
                        id,
                        n as nat,
                    )[k],
                forall|k: int| i <= k < cs.len() ==> (#[trigger] self.controllers@[k])@ == cs[k],
            decreases self.controllers@.len() - i,
        {
            proof {
                proofs::lemma_take_next(cs, i as int, id);
            }
            if self.controllers[i].owners.len() == 0 && taken < n {
                self.controllers[i].owners.push(id);
                taken = taken + 1;
                assert(self.controllers@[i as int].owners@ =~= seq![id]);
            }
            i = i + 1;
        }
        assert(controllers_view(self.controllers@) =~= model::assign(cs, id, n as nat));
    }

    /// A room for the game of its first client, which is taken in at once. It runs at the rate
    /// that nobody has set.
    pub fn new(initial_request: JoinRequest) -> (r: (Room, Vec<Effect>))
        requires
            initial_request.game_info.total_controllers <= MAX_CONTROLLERS_PER_GAME,
        ensures
            r.0@ == RoomView::empty(initial_request.game_info).with_client(initial_request@),
            r.0@.rate == DEFAULT_FPS,
            r.0@.wf(),
            effects_view(r.1@) == RoomView::empty(initial_request.game_info).client_effects(
                initial_request@,
            ),
    {
        let game_info: GameInfo = initial_request.game_info;
        let mut controllers: Vec<ControllerData> = Vec::new();
        let ghost cs = RoomView::empty(game_info).controllers;
        let mut i: usize = 0;
        while i < game_info.total_controllers
            invariant
                i <= game_info.total_controllers <= 16,
                cs == RoomView::empty(game_info).controllers,
                controllers@.len() == i,
                forall|k: int| 0 <= k < i ==> (#[trigger] controllers@[k])@ == cs[k],
            decreases game_info.total_controllers - i,
        {
            controllers.push(
                ControllerData {
                    size: game_info.controller_data_size[i] as usize,
                    owners: Vec::new(),
                },
            );
            assert(controllers@[i as int]@.owners =~= Seq::<usize>::empty());
            i = i + 1;
        }
        let mut room: Room = Room {
            clients: Vec::new(),
            game_info,
            controllers,
            rate: DEFAULT_FPS,
        };
        proof {
            assert(room@.clients =~= RoomView::empty(game_info).clients);
            assert(room@.controllers =~= cs);
        }
        let effects: Vec<Effect> = room.add_client(initial_request);
        (room, effects)
    }

    /// Deals with a request to join: turns it down where the room is full or the game differs,
    /// and takes the client in otherwise.
    pub fn handle_join(&mut self, request: JoinRequest) -> (effects: Vec<Effect>)
        requires
            old(self)@.wf(),
            old(self)@.refusal(request@) is None ==> model::next_id(old(self)@.clients)
                <= usize::MAX,
        ensures
            final(self)@ == old(self)@.after_join(request@),
            final(self)@.wf(),
            effects_view(effects@) == old(self)@.join_effects(request@),
    {
        match self.refusal(&request) {
            Some(reason) => refuse(reason),
            None => self.add_client(request),
        }
    }

    /// Why a join request is turned down, if it is.
    pub fn refusal(&self, request: &JoinRequest) -> (r: Option<&'static str>)
        ensures
            match r {
                Some(reason) => self@.refusal(request@) == Some(reason@),
                None => self@.refusal(request@) is None,
            },
    {
        if self.clients.len() >= MAX_CLIENTS_PER_GAME {
            return Some("Sorry, game is full.");
        }
        if request.game_info != self.game_info {
            return Some("Your game info is invalid.");
        }
        None
    }

    /// The same command to every client.
    fn broadcast(&self, command: &Command) -> (effects: Vec<Effect>)
        ensures
            effects_view(effects@) == model::broadcast(self@.clients, command@),
    {
        let mut effects: Vec<Effect> = Vec::new();
        let ghost all = model::broadcast(self@.clients, command@);
        let mut i: usize = 0;
        while i < self.clients.len()
            invariant
                i <= self.clients@.len(),
                all == model::broadcast(self@.clients, command@),
                effects@.len() == i,
                forall|k: int| 0 <= k < i ==> (#[trigger] effects@[k])@ == all[k],
            decreases self.clients@.len() - i,
        {
            effects.push(
                Effect::Send {
                    to: self.clients[i].id,
                    message: Message::Command(command.clone()),
                },
            );
            assert(self@.clients[i as int] == self.clients@[i as int]@);
            i = i + 1;
        }
        assert(effects_view(effects@) =~= all);
        effects
    }

    /// Deals with a command of the client at position `from`.
    pub fn handle_command(&mut self, from: usize, command: Command) -> (effects: Vec<Effect>)
        requires
            from < old(self)@.clients.len(),
        ensures
            final(self)@ == old(self)@.after_command(from as int, command@),
            old(self)@.wf() ==> final(self)@.wf(),
            effects_view(effects@) == old(self)@.command_effects(from as int, command@),
    {
        assert(self@.clients[from as int] == self.clients@[from as int]@);
        match &command.payload {
            Payload::Number(n) => {
                if command.cmd <= 0x3F {
                    // power, reset and the like
                    self.broadcast(&command)
                } else if command.cmd == commands::SETFPS {
                    let n: u32 = *n;
                    self.rate = n;
                    proof {
                        proofs::lemma_same_members(old(self)@, self@);
                    }
                    single(Effect::SetRate(n))
                } else {
                    unknown(command.cmd)
                }
            },
            Payload::Data(data) => {
                if command.cmd == commands::TEXT {
                    let nickname: &Vec<u8> = &self.clients[from].nickname;
                    let mut line: Vec<u8> = Vec::new();
                    bytes::append_bytes(&mut line, bytes::to_le(nickname.len()).as_slice());
                    bytes::append_bytes(&mut line, nickname.as_slice());
                    bytes::append_bytes(&mut line, data);
                    assert(line@ =~= model::chat_line(nickname@, data@));
                    self.broadcast(
                        &Command {
                            cmd: commands::TEXT,
                            payload: Payload::Data(share_bytes(line)),
                        },
                    )
                } else if command.cmd == commands::ECHO {
                    let echo: Arc<[u8]> = if data.len() <= model::MAX_ECHO_LEN {
                        data.clone()
                    } else {
                        share_bytes(bytes::copy_range(data, 0, model::MAX_ECHO_LEN))
                    };
                    single(
                        Effect::Send {
                            to: self.clients[from].id,
                            message: Message::Command(
                                Command { cmd: commands::ECHO, payload: Payload::Data(echo) },
                            ),
                        },
                    )
                } else if command.cmd == commands::QUIT {
                    self.clients[from].dead = true;
                    proof {
                        assert(self@.clients =~= old(self)@.with_dead(from as int).clients);
                        proofs::lemma_same_members(old(self)@, self@);
                    }
                    let effects: Vec<Effect> = Vec::new();
                    assert(effects_view(effects@) =~= seq![]);
                    effects
                } else {
                    unknown(command.cmd)
                }
            },
        }
    }

    /// Replaces the input of every client by a fresh one, given in the order of the clients.
    pub fn take_inputs(&mut self, inputs: Vec<Vec<u8>>)
        requires
            inputs@.len() == old(self)@.clients.len(),
        ensures
            final(self)@ == old(self)@.with_inputs(inputs@.map_values(|b: Vec<u8>| b@)),
            old(self)@.wf() ==> final(self)@.wf(),
    {
        let ghost given = inputs@;
        let ghost contents = inputs@.map_values(|b: Vec<u8>| b@);
        let mut rest: Vec<Vec<u8>> = inputs;
        while rest.len() > 0
            invariant
                given.len() == old(self).clients@.len(),
                contents == given.map_values(|b: Vec<u8>| b@),
                rest@.len() <= given.len(),
                rest@ == given.take(rest@.len() as int),
                self.clients@.len() == given.len(),
                self.controllers@ == old(self).controllers@,
                self.game_info == old(self).game_info,
                self.rate == old(self).rate,
                forall|k: int|
                    0 <= k < rest@.len() ==> #[trigger] self.clients@[k] == old(self).clients@[k],
                forall|k: int|
                    rest@.len() <= k < given.len() ==> (#[trigger] self.clients@[k])@ == (
                    ClientView { controller_buffer: contents[k], ..old(self).clients@[k]@ }),
            decreases rest@.len(),
        {
            let i: usize = rest.len() - 1;
            if let Some(input) = rest.pop() {
                self.clients[i].controller_buffer = input;
            }
            assert(rest@ =~= given.take(rest@.len() as int));
        }
        proof {
            assert(self@.clients =~= old(self)@.with_inputs(contents).clients);
            proofs::lemma_same_members(old(self)@, self@);
        }
    }

    /// How many bytes of input a frame has.
    pub fn frame_size(&self) -> (r: usize)
        requires
            self@.sized(),
        ensures
            r == model::total_size(self@.controllers),
    {
        let ghost cs = self@.controllers;
        let mut sum: usize = 0;
        let mut i: usize = 0;
        proof {
            proofs::lemma_sizes_bounded(cs, 0);
        }
        while i < self.controllers.len()
            invariant
                i <= self.controllers@.len(),
                cs == controllers_view(self.controllers@),
                sum == model::total_size(cs.take(i as int)),
                model::total_size(cs) <= 255 * 16,
            decreases self.controllers@.len() - i,
        {
            proof {
                proofs::lemma_take_next(cs, i as int, 0);
                proofs::lemma_take_bounded(cs, i + 1, 0);
                assert(cs[i as int] == self.controllers@[i as int]@);
            }
            sum = sum + self.controllers[i].size;
            i = i + 1;
        }
        assert(cs.take(i as int) =~= cs);
        sum
    }

    /// The frame of inputs that all the clients together produce.
    pub fn collect_inputs(&self) -> (r: Vec<u8>)
        requires
            self@.sized(),
            self@.buffers_fit(),
        ensures
            r@ == model::merged(self@.clients, self@.controllers),
    {
        let ghost cls = self@.clients;
        let ghost cs = self@.controllers;
        let mut frame: Vec<u8> = bytes::zero_vec(self.frame_size());
        let mut i: usize = 0;
        assert(cls.take(0) =~= Seq::<ClientView>::empty());
        while i < self.clients.len()
            invariant
                i <= self.clients@.len(),
                self@.sized(),
                self@.buffers_fit(),
                cls == self@.clients,
                cs == self@.controllers,
                frame@ == model::merged(cls.take(i as int), cs),
                frame@.len() == model::total_size(cs),
            decreases self.clients@.len() - i,
        {
            self.merge_input(i, &mut frame);
            proof {
                assert(cls.take(i + 1).drop_last() =~= cls.take(i as int));
                assert(cls.take(i + 1).last() == cls[i as int]);
            }
            i = i + 1;
        }
        assert(cls.take(i as int) =~= cls);
        frame
    }

    /// Adds the input of the client at position `i` to a frame.
    fn merge_input(&self, i: usize, frame: &mut Vec<u8>)
        requires
            i < self@.clients.len(),
            self@.sized(),
            self@.buffers_fit(),
            old(frame)@.len() == model::total_size(self@.controllers),
        ensures
            final(frame)@ == model::or_bytes(
                old(frame)@,
                model::spread(
                    self@.controllers,
                    self@.clients[i as int].id,
                    self@.clients[i as int].controller_buffer,
                ),
            ),
    {
        let ghost cs = self@.controllers;
        let ghost start = frame@;
        let client: &ClientData = &self.clients[i];
        let id: usize = client.id;
        let ghost buf = client.controller_buffer@;
        let mut local_offset: usize = 0;
        let mut global_offset: usize = 0;
        let mut k: usize = 0;
        proof {
            assert(self@.clients[i as int] == client@);
            proofs::lemma_sizes_bounded(cs, id);
        }
        while k < self.controllers.len()
            invariant
                k <= self.controllers@.len(),
                cs == controllers_view(self.controllers@),
                start == old(frame)@,
                id == client.id,
                buf == client.controller_buffer@,
                buf.len() >= model::owned_size(cs, id),
                start.len() == model::total_size(cs),
                frame@.len() == start.len(),
                model::owned_size(cs, id) <= model::total_size(cs) <= 255 * 16,
                global_offset == model::total_size(cs.take(k as int)),
                local_offset == model::owned_size(cs.take(k as int), id),
                model::spread(cs.take(k as int), id, buf).len() == global_offset,
                forall|p: int|
                    0 <= p < global_offset ==> #[trigger] frame@[p] == start[p] | model::spread(
                        cs.take(k as int),
                        id,
                        buf,
                    )[p],
                forall|p: int|
                    global_offset <= p < start.len() ==> #[trigger] frame@[p] == start[p],
            decreases self.controllers@.len() - k,
        {
            let ghost before = frame@;
            let size: usize = self.controllers[k].size;
            let ghost old_spread = model::spread(cs.take(k as int), id, buf);
            let ghost new_spread = model::spread(cs.take(k + 1), id, buf);
            proof {
                proofs::lemma_take_next(cs, k as int, id);
                proofs::lemma_take_bounded(cs, k + 1, id);
                assert(cs[k as int] == self.controllers@[k as int]@);
            }
            if owns(&self.controllers[k].owners, id) {
                or_range(frame, global_offset, &client.controller_buffer, local_offset, size);
                local_offset = local_offset + size;
            }
            proof {
                assert forall|p: int| 0 <= p < global_offset + size implies #[trigger] frame@[p]
                    == start[p] | new_spread[p] by {
                    if p < global_offset {
                        assert(new_spread[p] == old_spread[p]);
                        assert(frame@[p] == before[p]);
                    } else if !cs[k as int].owners.contains(id) {
                        assert(new_spread[p] == 0);
                        let x = start[p];
                        assert(x | 0u8 == x) by (bit_vector);
                    }
                }
            }
            global_offset = global_offset + size;
            k = k + 1;
        }
        proof {
            assert(cs.take(k as int) =~= cs);
            assert(frame@ =~= model::or_bytes(start, model::spread(cs, id, buf)));
        }
    }

    /// The current frame of inputs, to every client.
    pub fn send_inputs(&self) -> (effects: Vec<Effect>)
        requires
            self@.sized(),
            self@.buffers_fit(),
        ensures
            effects_view(effects@) == self@.input_effects(),
    {
        let inputs: Arc<[u8]> = share_bytes(self.collect_inputs());
        let mut effects: Vec<Effect> = Vec::new();
        let ghost all = self@.input_effects();
        let mut i: usize = 0;
        while i < self.clients.len()
            invariant
                i <= self.clients@.len(),
                all == self@.input_effects(),
                inputs@ == model::merged(self@.clients, self@.controllers),
                effects@.len() == i,
                forall|k: int| 0 <= k < i ==> (#[trigger] effects@[k])@ == all[k],
            decreases self.clients@.len() - i,
        {
            effects.push(
                Effect::Send {
                    to: self.clients[i].id,
                    message: Message::AllGamepads(inputs.clone()),
                },
            );
            assert(self@.clients[i as int] == self.clients@[i as int]@);
            i = i + 1;
        }
        assert(effects_view(effects@) =~= all);
        effects
    }

    /// Counts the clients as dead that a frame did not reach; `reached` is in the order of the
    /// clients.
    pub fn mark_unreached(&mut self, reached: &Vec<bool>)
        requires
            reached@.len() == old(self)@.clients.len(),
        ensures
            final(self)@ == old(self)@.with_unreached(reached@),
            old(self)@.wf() ==> final(self)@.wf(),
    {
        let mut i: usize = 0;
        while i < self.clients.len()
            invariant
                i <= self.clients@.len(),
                reached@.len() == self.clients@.len(),
                self.clients@.len() == old(self).clients@.len(),
                self.controllers@ == old(self).controllers@,
                self.game_info == old(self).game_info,
                self.rate == old(self).rate,
                forall|k: int|
                    i <= k < self.clients@.len() ==> #[trigger] self.clients@[k] == old(
                        self,
                    ).clients@[k],
                forall|k: int|
                    0 <= k < i ==> (#[trigger] self.clients@[k])@ == (ClientView {
                        dead: old(self).clients@[k]@.dead || !reached@[k],
                        ..old(self).clients@[k]@
                    }),
            decreases self.clients@.len() - i,
        {
            if !reached[i] {
                self.clients[i].dead = true;
            }
            i = i + 1;
        }
        proof {
            assert(self@.clients =~= old(self)@.with_unreached(reached@).clients);
            proofs::lemma_same_members(old(self)@, self@);
        }
    }

    /// Takes the dead clients out of the room and off their controllers.
    pub fn remove_dead(&mut self)
        ensures
            final(self)@ == old(self)@.without_dead(),
            old(self)@.wf() ==> final(self)@.wf(),
    {
        let ghost cls = self@.clients;
        let ghost cs = self@.controllers;
        let mut done: usize = 0;
        let count: usize = self.clients.len();
        let mut i: usize = 0;
        proof {
            assert(cls.take(0) =~= Seq::<ClientView>::empty());
            assert(model::living(cls.take(0)) =~= Seq::<ClientView>::empty());
            assert(self@.clients =~= model::living(cls.take(0)) + cls.skip(0));
            assert forall|k: int| 0 <= k < cs.len() implies #[trigger] self@.controllers[k]
                == model::released(cs[k], cls.take(0)) by {
                proofs::lemma_released_nobody(cs[k], cls.take(0));
            }
        }
        while done < count
            invariant
                done <= count,
                count == cls.len(),
                self.clients@.len() == i + count - done,
                cls == old(self)@.clients,
                cs == old(self)@.controllers,
                self.game_info == old(self).game_info,
                self.rate == old(self).rate,
                i == model::living(cls.take(done as int)).len(),
                self@.clients == model::living(cls.take(done as int)) + cls.skip(done as int),
                self@.controllers.len() == cs.len(),
                forall|k: int|
                    0 <= k < cs.len() ==> #[trigger] self@.controllers[k] == model::released(
                        cs[k],
                        cls.take(done as int),
                    ),
            decreases count - done,
        {
            let ghost before = self@;
            proof {
                assert(before.clients[i as int] == cls[done as int]);
                assert(before.clients[i as int] == self.clients@[i as int]@);
                proofs::lemma_living_next(cls, done as int);
                assert forall|k: int| 0 <= k < cs.len() implies #[trigger] model::released(
                    cs[k],
                    cls.take(done + 1),
                ) == proofs::released_next(before.controllers[k], cls[done as int]) by {
                    proofs::lemma_released_next(cs[k], cls, done as int);
                }
            }
            if self.clients[i].dead {
                let id: usize = self.clients[i].id;
                self.release(id);
                self.clients.remove(i);
                assert(self@.clients =~= before.clients.remove(i as int));
                assert(self@.clients =~= model::living(cls.take(done + 1)) + cls.skip(done + 1));
            } else {
                i = i + 1;
                assert(self@.clients =~= model::living(cls.take(done + 1)) + cls.skip(done + 1));
            }
            done = done + 1;
        }
        proof {
            assert(cls.take(done as int) =~= cls);
            assert(self@.clients =~= model::living(cls));
            assert(self@.controllers =~= old(self)@.without_dead().controllers);
            proofs::lemma_without_dead_wf(old(self)@);
        }
    }

    /// Takes the client `id` off every controller.
    fn release(&mut self, id: usize)
        ensures
            final(self).clients@ == old(self).clients@,
            final(self).game_info == old(self).game_info,
            final(self).rate == old(self).rate,
            final(self)@.controllers.len() == old(self)@.controllers.len(),
            forall|k: int|
                0 <= k < old(self)@.controllers.len() ==> #[trigger] final(self)@.controllers[k]
                    == proofs::without_owner(old(self)@.controllers[k], id),
    {
        let mut k: usize = 0;
        while k < self.controllers.len()
            invariant
                k <= self.controllers@.len(),
                self.controllers@.len() == old(self).controllers@.len(),
                self.clients@ == old(self).clients@,
                self.game_info == old(self).game_info,
                self.rate == old(self).rate,
                forall|j: int|
                    0 <= j < k ==> (#[trigger] self.controllers@[j])@ == proofs::without_owner(
                        old(self).controllers@[j]@,
                        id,
                    ),
                forall|j: int|
                    k <= j < self.controllers@.len() ==> #[trigger] self.controllers@[j] == old(
                        self,
                    ).controllers@[j],
            decreases self.controllers@.len() - k,
        {
            remove_all(&mut self.controllers[k].owners, id);
            k = k + 1;
        }
        assert forall|j: int| 0 <= j < old(self)@.controllers.len() implies #[trigger] self@.controllers[j]
            == proofs::without_owner(old(self)@.controllers[j], id) by {
            assert(self@.controllers[j] == self.controllers@[j]@);
        }
    }
}

/// Takes every occurrence of `id` out of `owners`.
fn remove_all(owners: &mut Vec<usize>, id: usize)
    ensures
        final(owners)@ == old(owners)@.filter(proofs::other_than(id)),
{
    let ghost given = owners@;
    let ghost keep = proofs::other_than(id);
    let count: usize = owners.len();
    let mut done: usize = 0;
    let mut i: usize = 0;
    proof {
        assert(given.take(0).filter(keep) =~= Seq::<usize>::empty()) by {
            reveal(Seq::filter);
        }
        assert(owners@ =~= given.take(0).filter(keep) + given.skip(0));
    }
    while done < count
        invariant
            done <= count,
            count == given.len(),
            keep == proofs::other_than(id),
            i == given.take(done as int).filter(keep).len(),
            owners@ == given.take(done as int).filter(keep) + given.skip(done as int),
        decreases count - done,
    {
        proof {
            assert(owners@[i as int] == given[done as int]);
            proofs::lemma_filter_next(given, done as int, keep);
        }
        if owners[i] == id {
            owners.remove(i);
        } else {
            i = i + 1;
        }
        assert(owners@ =~= given.take(done + 1).filter(keep) + given.skip(done + 1));
        done = done + 1;
    }
    proof {
        assert(given.take(done as int) =~= given);
        assert(owners@ =~= given.filter(keep));
    }
}

/// Combines `n` bytes of `input` from `from` on into `frame` from `at` on.
fn or_range(frame: &mut Vec<u8>, at: usize, input: &Vec<u8>, from: usize, n: usize)
    requires
        at + n <= old(frame)@.len(),
        from + n <= input@.len(),
    ensures
        final(frame)@.len() == old(frame)@.len(),
        forall|p: int|
            0 <= p < old(frame)@.len() ==> #[trigger] final(frame)@[p] == if at <= p < at + n {
                old(frame)@[p] | input@[from + p - at]
            } else {
                old(frame)@[p]
            },
{
    let mut j: usize = 0;
    while j < n
        invariant
            j <= n,
            at + n <= frame.len(),
            from + n <= input.len(),
            frame@.len() == old(frame)@.len(),
            forall|p: int|
                0 <= p < old(frame)@.len() ==> #[trigger] frame@[p] == if at <= p < at + j {
                    old(frame)@[p] | input@[from + p - at]
                } else {
                    old(frame)@[p]
                },
        decreases n - j,
    {
        frame[at + j] = frame[at + j] | input[from + j];
        j = j + 1;
    }
}

fn single(effect: Effect) -> (effects: Vec<Effect>)
    ensures
        effects_view(effects@) == seq![effect@],
{
    let mut effects: Vec<Effect> = Vec::new();
    effects.push(effect);
    assert(effects_view(effects@) =~= seq![effect@]);
    effects
}

fn refuse(reason: &str) -> (effects: Vec<Effect>)
    ensures
        effects_view(effects@) == seq![EffectView::Reply(Err(reason@))],
{
    single(Effect::Reply(Err(reason.to_string())))
}

fn unknown(cmd: u8) -> (effects: Vec<Effect>)
    ensures
        effects_view(effects@) == seq![EffectView::Log(model::unknown_command(cmd))],
{
    let mut line: String = "Unknown command ".to_string();
    line.append(text::prefixed_hex_text(cmd).as_str());
    single(Effect::Log(line))
}

} // verus!
