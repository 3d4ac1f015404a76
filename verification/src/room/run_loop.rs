use vstd::prelude::*;

use crate::room;
use crate::room::model;
use crate::room::model::{EffectView, RoomView};
use crate::room::{Effect, Room, DEFAULT_FPS};
use crate::types::{
    Command, CommandView, JoinRequest, JoinView, MAX_CLIENTS_PER_GAME, MAX_CONTROLLERS_PER_GAME,
};

verus! {

/// What a running room waits for.
#[derive(Clone, Copy, Debug, PartialEq, Eq, Structural)]
pub enum Phase {
    /// The next tick of its clock.
    Tick,
    /// A join request, or word that none is left.
    Join,
    /// A command of the client at this position, or word that none is left.
    Command(usize),
    /// The current inputs of the clients.
    Inputs,
    /// Word on which clients the frame has reached.
    Sent,
    /// Nothing: the room has closed.
    Ended,
}

/// Something that a running room has waited for.
#[derive(Debug)]
pub enum RoomEvent {
    Tick,
    Join(JoinRequest),
    NoJoin,
    Command(Command),
    NoCommand,
    /// The inputs of the clients, in their order.
    Inputs(Vec<Vec<u8>>),
    /// Whether the frame reached each client, in their order.
    Sent(Vec<bool>),
}

/// The contents of a `RoomEvent`.
pub enum EventView {
    Tick,
    Join(JoinView),
    NoJoin,
    Command(CommandView),
    NoCommand,
    Inputs(Seq<Seq<u8>>),
    Sent(Seq<bool>),
}

impl View for RoomEvent {
    type V = EventView;

    open spec fn view(&self) -> EventView {
        match self {
            RoomEvent::Tick => EventView::Tick,
            RoomEvent::Join(request) => EventView::Join(request@),
            RoomEvent::NoJoin => EventView::NoJoin,
            RoomEvent::Command(command) => EventView::Command(command@),
            RoomEvent::NoCommand => EventView::NoCommand,
            RoomEvent::Inputs(inputs) => EventView::Inputs(
                inputs@.map_values(|b: Vec<u8>| b@),
            ),
            RoomEvent::Sent(reached) => EventView::Sent(reached@),
        }
    }
}

/// The state of a running room.
pub struct LoopView {
    pub room: RoomView,
    pub phase: Phase,
}

impl LoopView {
    /// What holds of a running room at all times: it has a place for each of its clients, it is
    /// open exactly as long as somebody is in it, and it only listens to clients that it has.
    pub open spec fn wf(self) -> bool {
        &&& self.room.wf()
        &&& self.room.clients.len() <= MAX_CLIENTS_PER_GAME
        &&& self.phase == Phase::Ended <==> self.room.clients.len() == 0
        &&& self.phase matches Phase::Command(i) ==> i < self.room.clients.len()
    }

    /// Whether the room can go on with `event`.
    pub open spec fn accepts(self, event: EventView) -> bool {
        match (self.phase, event) {
            (Phase::Tick, EventView::Tick) => true,
            (Phase::Join, EventView::Join(request)) => self.room.refusal(request) is None
                ==> model::next_id(self.room.clients) <= usize::MAX,
            (Phase::Join, EventView::NoJoin) => true,
            (Phase::Command(i), EventView::Command(command)) => true,
            (Phase::Command(i), EventView::NoCommand) => true,
            (Phase::Inputs, EventView::Inputs(inputs)) => {
                &&& inputs.len() == self.room.clients.len()
                &&& self.room.with_inputs(inputs).buffers_fit()
            },
            (Phase::Sent, EventView::Sent(reached)) => reached.len() == self.room.clients.len(),
            _ => false,
        }
    }

    /// The state that follows `event`.
    pub open spec fn next(self, event: EventView) -> LoopView {
        match (self.phase, event) {
            (Phase::Tick, EventView::Tick) => LoopView { phase: Phase::Join, ..self },
            (Phase::Join, EventView::Join(request)) => LoopView {
                room: self.room.after_join(request),
                ..self
            },
            (Phase::Join, EventView::NoJoin) => LoopView { phase: Phase::Command(0), ..self },
            (Phase::Command(i), EventView::Command(command)) => LoopView {
                room: self.room.after_command(i as int, command),
                ..self
            },
            (Phase::Command(i), EventView::NoCommand) => LoopView {
                phase: if i + 1 < self.room.clients.len() {
                    Phase::Command((i + 1) as usize)
                } else {
                    Phase::Inputs
                },
                ..self
            },
            (Phase::Inputs, EventView::Inputs(inputs)) => LoopView {
                room: self.room.with_inputs(inputs),
                phase: Phase::Sent,
            },
            (Phase::Sent, EventView::Sent(reached)) => {
                let room = self.room.with_unreached(reached).without_dead();
                LoopView {
                    room,
                    phase: if room.clients.len() == 0 {
                        Phase::Ended
                    } else {
                        Phase::Tick
                    },
                }
            },
            _ => self,
        }
    }

    /// What follows from `event`.
    pub open spec fn effects(self, event: EventView) -> Seq<EffectView> {
        match (self.phase, event) {
            (Phase::Join, EventView::Join(request)) => self.room.join_effects(request),
            (Phase::Command(i), EventView::Command(command)) => self.room.command_effects(
                i as int,
                command,
            ),
            (Phase::Inputs, EventView::Inputs(inputs)) => self.room.with_inputs(
                inputs,
            ).input_effects(),
            _ => Seq::empty(),
        }
    }
}

/// A room together with what it waits for. It goes round: a tick, the join requests, the commands
/// of each client in turn, a frame of inputs, then the dead are taken out.
#[derive(Debug)]
pub struct RoomLoop {
    room: Room,
    phase: Phase,
}

impl View for RoomLoop {
    type V = LoopView;

    closed spec fn view(&self) -> LoopView {
        LoopView { room: self.room@, phase: self.phase }
    }
}

impl RoomLoop {
    /// Opens a room for its first client.
    pub fn start(initial_request: JoinRequest) -> (r: (RoomLoop, Vec<Effect>))
        requires
            initial_request.game_info.total_controllers <= MAX_CONTROLLERS_PER_GAME,
        ensures
            r.0@ == (LoopView {
                room: RoomView::empty(initial_request.game_info).with_client(initial_request@),
                phase: Phase::Tick,
            }),
            r.0@.room.rate == DEFAULT_FPS,
            r.0@.wf(),
            room::effects_view(r.1@) == RoomView::empty(initial_request.game_info).client_effects(
                initial_request@,
            ),
    {
        let (room, effects) = Room::new(initial_request);
        (RoomLoop { room, phase: Phase::Tick }, effects)
    }

    /// What the room waits for.
    pub fn phase(&self) -> (r: Phase)
        ensures
            r == self@.phase,
    {
        self.phase
    }

    /// The room itself.
    pub fn room(&self) -> (r: &Room)
        ensures
            r@ == self@.room,
    {
        &self.room
    }

    /// Goes on with what the room has waited for.
    pub fn run_loop(&mut self, event: RoomEvent) -> (effects: Vec<Effect>)
        requires
            old(self)@.wf(),
            old(self)@.accepts(event@),
        ensures
            final(self)@ == old(self)@.next(event@),
            final(self)@.wf(),
            room::effects_view(effects@) == old(self)@.effects(event@),
    {
        let nothing: Vec<Effect> = Vec::new();
        assert(room::effects_view(nothing@) =~= Seq::<EffectView>::empty());
        match event {
            RoomEvent::Tick => {
                self.phase = Phase::Join;
                nothing
            },
            RoomEvent::Join(request) => self.room.handle_join(request),
            RoomEvent::NoJoin => {
                self.phase = Phase::Command(0);
                nothing
            },
            RoomEvent::Command(command) => match self.phase {
                Phase::Command(i) => self.room.handle_command(i, command),
                _ => nothing,
            },
            RoomEvent::NoCommand => {
                if let Phase::Command(i) = self.phase {
                    self.phase = if i + 1 < self.room.clients().len() {
                        Phase::Command(i + 1)
                    } else {
                        Phase::Inputs
                    };
                }
                nothing
            },
            RoomEvent::Inputs(inputs) => {
                self.room.take_inputs(inputs);
                self.phase = Phase::Sent;
                self.room.send_inputs()
            },
            RoomEvent::Sent(reached) => {
                self.room.mark_unreached(&reached);
                self.room.remove_dead();
                self.phase = if self.room.clients().len() == 0 {
                    Phase::Ended
                } else {
                    Phase::Tick
                };
                nothing
            },
        }
    }
}

} // verus!
